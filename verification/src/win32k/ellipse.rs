//! Ellipses through a DC: the outline by the midpoint algorithm in 64-bit
//! arithmetic, the inside by scanlines.

use vstd::prelude::*;
use crate::win32k::objects::GdiState;
use crate::win32k::dc::DcObject;
use crate::win32k::surface::{GdiSurface, SurfaceTable};
use crate::win32k::gdi_ops::{points_painted, pixels_mapped, surface_changed, dc_surface_addr, get_dc_surface,
    dc_pen_color, dc_brush_color, dc_pen_color_exec, dc_brush_color_exec};

verus! {

/// The largest radius drawn; larger ones are cut to it.
pub const MAX_ELLIPSE_DIMENSION: i32 = 16384;

/// A radius cut to the largest drawn.
pub open spec fn clamp_radius(r: int) -> int {
    if r < MAX_ELLIPSE_DIMENSION { r } else { MAX_ELLIPSE_DIMENSION as int }
}

/// The midpoint algorithm's state: offsets `x`, `y`, the terms
/// `px = 2 ry² x` and `py = 2 rx² y`, and the decision value `p`.
pub type MidState = (int, int, int, int, int);

/// One step of the first region: `x` moves on; `y` moves down when the
/// decision value is not negative.
pub open spec fn m1_next(rx2: int, ry2: int, s: MidState) -> MidState {
    let npx = s.2 + 2 * ry2;
    if s.4 < 0 {
        (s.0 + 1, s.1, npx, s.3, s.4 + ry2 + npx)
    } else {
        (s.0 + 1, s.1 - 1, npx, s.3 - 2 * rx2, s.4 + ry2 + npx - (s.3 - 2 * rx2))
    }
}

pub open spec fn m1_measure(s: MidState) -> int {
    if s.2 < s.3 { s.3 - s.2 } else { 0 }
}

/// The offsets the first region visits from state `s`, while `px < py`.
pub open spec fn m1_offsets(rx2: int, ry2: int, s: MidState) -> Seq<(int, int)>
    decreases m1_measure(s),
{
    if ry2 >= 1 && rx2 >= 0 && s.2 < s.3 {
        seq![(s.0, s.1)] + m1_offsets(rx2, ry2, m1_next(rx2, ry2, s))
    } else {
        Seq::empty()
    }
}

/// The state the first region ends in.
pub open spec fn m1_end(rx2: int, ry2: int, s: MidState) -> MidState
    decreases m1_measure(s),
{
    if ry2 >= 1 && rx2 >= 0 && s.2 < s.3 {
        m1_end(rx2, ry2, m1_next(rx2, ry2, s))
    } else {
        s
    }
}

/// One step of the second region: `y` moves down; `x` moves on when the
/// decision value is not positive.
pub open spec fn m2_next(rx2: int, ry2: int, s: MidState) -> MidState {
    let npy = s.3 - 2 * rx2;
    if s.4 > 0 {
        (s.0, s.1 - 1, s.2, npy, s.4 + rx2 - npy)
    } else {
        let npx = s.2 + 2 * ry2;
        (s.0 + 1, s.1 - 1, npx, npy, s.4 + rx2 - npy + npx)
    }
}

/// The offsets the second region visits from state `s`, down to `y = 0`.
pub open spec fn m2_offsets(rx2: int, ry2: int, s: MidState) -> Seq<(int, int)>
    decreases (if s.1 >= 0 { s.1 + 1 } else { 0 }),
{
    if s.1 >= 0 {
        seq![(s.0, s.1)] + m2_offsets(rx2, ry2, m2_next(rx2, ry2, s))
    } else {
        Seq::empty()
    }
}

/// The offsets the midpoint algorithm visits for radii `rx`, `ry` (each
/// cut to the largest drawn): none for a radius that is not positive.
pub open spec fn ellipse_offsets(rx: int, ry: int) -> Seq<(int, int)> {
    if rx <= 0 || ry <= 0 {
        Seq::empty()
    } else {
        let a = clamp_radius(rx);
        let b = clamp_radius(ry);
        let rx2 = a * a;
        let ry2 = b * b;
        let s0: MidState = (0, b, 0, 2 * rx2 * b, ry2 - rx2 * b + rx2 / 4);
        let e = m1_end(rx2, ry2, s0);
        let s2: MidState = (e.0, e.1, e.2, e.3, ry2 * (e.0 + 1) * (e.0 + 1) + rx2 * (e.1 - 1) * (e.1 - 1) - rx2 * ry2);
        m1_offsets(rx2, ry2, s0) + m2_offsets(rx2, ry2, s2)
    }
}

/// The four mirror images of offset `o` about `(cx, cy)`, in drawing
/// order.
pub open spec fn quad_points(cx: int, cy: int, o: (int, int)) -> Seq<(int, int)> {
    seq![(cx + o.0, cy + o.1), (cx - o.0, cy + o.1), (cx + o.0, cy - o.1), (cx - o.0, cy - o.1)]
}

/// The points drawn for a run of offsets.
pub open spec fn quads(cx: int, cy: int, offs: Seq<(int, int)>) -> Seq<(int, int)>
    decreases offs.len(),
{
    if offs.len() == 0 {
        Seq::empty()
    } else {
        quads(cx, cy, offs.drop_last()) + quad_points(cx, cy, offs.last())
    }
}

pub open spec fn in32(v: int) -> bool {
    i32::MIN <= v <= i32::MAX
}

/// Every point of the outline is within 32 bits (the offsets are added to
/// the centre in 32-bit arithmetic).
pub open spec fn outline_fits(cx: int, cy: int, rx: int, ry: int) -> bool {
    forall|k: int| 0 <= k < ellipse_offsets(rx, ry).len() ==> {
        let o = #[trigger] ellipse_offsets(rx, ry)[k];
        in32(cx + o.0) && in32(cx - o.0) && in32(cy + o.1) && in32(cy - o.1)
    }
}

/// Set one pixel, and keep `done` painted.
fn paint_point(s: &mut GdiSurface, x: i32, y: i32, color: u32, Ghost(before): Ghost<GdiSurface>, Ghost(done): Ghost<Seq<(int, int)>>)
    requires
        old(s).wf(),
        old(s).has_bits(),
        points_painted(before, *old(s), done, color),
    ensures
        final(s).wf(),
        final(s).has_bits(),
        points_painted(before, *final(s), done.push((x as int, y as int)), color),
{
    let ghost s0 = *s;
    let _ = s.set_pixel(x, y, color);
    proof {
        let d2 = done.push((x as int, y as int));
        assert forall|px: int, py: int| #[trigger] s.in_bounds(px, py) && s.has_bits() implies
            s.px(px, py) == if d2.contains((px, py)) { color } else { before.px(px, py) } by {
            assert(s0.in_bounds(px, py));
            if px == x && py == y {
                assert(d2[d2.len() - 1] == (px, py));
            } else {
                assert(done.contains((px, py)) == d2.contains((px, py))) by {
                    if d2.contains((px, py)) {
                        let k = choose|k: int| 0 <= k < d2.len() && d2[k] == (px, py);
                        assert(k < done.len());
                        assert(done[k] == (px, py));
                    }
                    if done.contains((px, py)) {
                        let k = choose|k: int| 0 <= k < done.len() && done[k] == (px, py);
                        assert(d2[k] == (px, py));
                    }
                }
            }
        }
    }
}

/// Set the four mirror images of `(x, y)` about `(cx, cy)`.
fn draw_pixel_symmetric(s: &mut GdiSurface, cx: i32, cy: i32, x: i32, y: i32, color: u32,
    Ghost(before): Ghost<GdiSurface>, Ghost(done): Ghost<Seq<(int, int)>>)
    requires
        old(s).wf(),
        old(s).has_bits(),
        points_painted(before, *old(s), done, color),
        in32(cx + x) && in32(cx - x) && in32(cy + y) && in32(cy - y),
    ensures
        final(s).wf(),
        final(s).has_bits(),
        points_painted(before, *final(s), done + quad_points(cx as int, cy as int, (x as int, y as int)), color),
{
    let ghost q = quad_points(cx as int, cy as int, (x as int, y as int));
    paint_point(s, cx + x, cy + y, color, Ghost(before), Ghost(done));
    paint_point(s, cx - x, cy + y, color, Ghost(before), Ghost(done.push(q[0])));
    paint_point(s, cx + x, cy - y, color, Ghost(before), Ghost(done.push(q[0]).push(q[1])));
    paint_point(s, cx - x, cy - y, color, Ghost(before), Ghost(done.push(q[0]).push(q[1]).push(q[2])));
    proof {
        assert(done.push(q[0]).push(q[1]).push(q[2]).push(q[3]) =~= done + q);
    }
}

proof fn lemma_quads_push(cx: int, cy: int, offs: Seq<(int, int)>, o: (int, int))
    ensures
        quads(cx, cy, offs.push(o)) == quads(cx, cy, offs) + quad_points(cx, cy, o),
{
    assert(offs.push(o).drop_last() =~= offs);
}

proof fn lemma_square_bound(a: int)
    by (nonlinear_arith)
    requires
        1 <= a <= 16384,
    ensures
        1 <= a * a <= 0x1000_0000,
{
}

/// While `px < py`, `x` stays small: `ry x < rx²`.
proof fn lemma_r1_x_bound(b: int, x: int, y: int, rx2: int, ry2: int)
    requires
        b >= 1,
        x >= 0,
        0 <= y <= b,
        rx2 >= 0,
        ry2 == b * b,
        2 * ry2 * x < 2 * rx2 * y,
    ensures
        b * x < rx2,
{
    assert(b * (b * x) < rx2 * y) by (nonlinear_arith)
        requires
            ry2 == b * b,
            2 * ry2 * x < 2 * rx2 * y,
    ;
    assert(rx2 * y <= rx2 * b) by (nonlinear_arith)
        requires
            y <= b,
            rx2 >= 0,
    ;
    assert(b * x < rx2) by (nonlinear_arith)
        requires
            b * (b * x) < rx2 * b,
            b >= 1,
    ;
}

/// The first region's decision value in closed form.
pub open spec fn f1(rx2: int, ry2: int, x: int, y: int) -> int {
    ry2 * (x + 1) * (x + 1) + rx2 * (y * y - y) + rx2 / 4 - rx2 * ry2
}

proof fn lemma_f1_step(rx2: int, ry2: int, x: int, y: int)
    ensures
        f1(rx2, ry2, x + 1, y) == f1(rx2, ry2, x, y) + ry2 + 2 * ry2 * (x + 1),
        f1(rx2, ry2, x + 1, y - 1) == f1(rx2, ry2, x, y) + ry2 + 2 * ry2 * (x + 1) - 2 * rx2 * (y - 1),
{
    assert(ry2 * (x + 2) * (x + 2) == ry2 * (x + 1) * (x + 1) + ry2 + 2 * ry2 * (x + 1)) by (nonlinear_arith);
    assert(rx2 * ((y - 1) * (y - 1) - (y - 1)) == rx2 * (y * y - y) - 2 * rx2 * (y - 1)) by (nonlinear_arith);
}

/// Bounds that keep the first region within 64 bits.
proof fn lemma_f1_bound(a: int, b: int, rx2: int, ry2: int, x: int, y: int)
    requires
        1 <= a <= 16384,
        1 <= b <= 16384,
        rx2 == a * a,
        ry2 == b * b,
        0 <= x,
        b * x <= rx2 + b,
        0 <= y <= b,
    ensures
        -0x1000_0000_0000_0000 < f1(rx2, ry2, x, y) < 0x1000_0000_0000_0000,
        x <= 0x1000_4000,
        0 <= 2 * ry2 * (x + 1) <= 0x0800_0000_0000_0000,
        0 <= 2 * rx2 * y <= 0x0000_1000_0000_0000,
{
    lemma_square_bound(a);
    lemma_square_bound(b);
    let t = b * (x + 1);
    let u = rx2 + 2 * b;
    assert(t == b * x + b) by (nonlinear_arith)
        requires
            t == b * (x + 1),
    ;
    assert(0 <= t) by (nonlinear_arith)
        requires
            t == b * (x + 1),
            b >= 1,
            x >= 0,
    ;
    assert(ry2 * (x + 1) * (x + 1) == t * t) by (nonlinear_arith)
        requires
            ry2 == b * b,
            t == b * (x + 1),
    ;
    assert(t * t <= u * u) by (nonlinear_arith)
        requires
            0 <= t <= u,
    ;
    assert(u * u <= 0x1000_8000 * 0x1000_8000) by (nonlinear_arith)
        requires
            0 <= u <= 0x1000_8000,
    ;
    let w = y * y - y;
    assert(0 <= w <= ry2) by (nonlinear_arith)
        requires
            w == y * y - y,
            ry2 == b * b,
            0 <= y <= b,
    ;
    assert(0 <= rx2 * w <= rx2 * ry2) by (nonlinear_arith)
        requires
            0 <= w <= ry2,
            0 <= rx2,
    ;
    assert(rx2 * ry2 <= 0x1000_0000 * 0x1000_0000) by (nonlinear_arith)
        requires
            0 <= rx2 <= 0x1000_0000,
            0 <= ry2 <= 0x1000_0000,
    ;
    assert(x <= b * x) by (nonlinear_arith)
        requires
            b >= 1,
            x >= 0,
    ;
    assert(0 <= 2 * ry2 * (x + 1) <= 2 * 0x1000_0000 * 0x1000_4001) by (nonlinear_arith)
        requires
            0 <= ry2 <= 0x1000_0000,
            0 <= x + 1 <= 0x1000_4001,
    ;
    assert(0 <= 2 * rx2 * y <= 2 * 0x1000_0000 * 16384) by (nonlinear_arith)
        requires
            0 <= rx2 <= 0x1000_0000,
            0 <= y <= 16384,
    ;
}

/// The products the second region starts from, within 64 bits.
proof fn lemma_r2_start_bound(a: int, b: int, rx2: int, ry2: int, x: int, y: int)
    requires
        1 <= a <= 16384,
        1 <= b <= 16384,
        rx2 == a * a,
        ry2 == b * b,
        0 <= x,
        b * x <= rx2 + b,
        0 <= y <= b,
    ensures
        x <= 0x1000_4000,
        0 <= ry2 * (x + 1) <= 0x0200_0000_0000_0000,
        0 <= ry2 * (x + 1) * (x + 1) <= 0x0200_0000_0000_0000,
        -0x1000_0000 <= rx2 * (y - 1) <= 0x0000_1000_0000_0000,
        0 <= rx2 * (y - 1) * (y - 1) <= 0x0100_0000_0000_0000,
        0 <= rx2 * ry2 <= 0x0100_0000_0000_0000,
{
    lemma_f1_bound(a, b, rx2, ry2, x, y);
    lemma_square_bound(a);
    lemma_square_bound(b);
    let t = b * (x + 1);
    assert(t == b * x + b) by (nonlinear_arith)
        requires
            t == b * (x + 1),
    ;
    assert(0 <= ry2 * (x + 1) <= 0x1000_0000 * 0x1000_4001) by (nonlinear_arith)
        requires
            0 <= ry2 <= 0x1000_0000,
            0 <= x + 1 <= 0x1000_4001,
    ;
    assert(ry2 * (x + 1) * (x + 1) == t * t) by (nonlinear_arith)
        requires
            ry2 == b * b,
            t == b * (x + 1),
    ;
    assert(0 <= t * t <= 0x1000_8000 * 0x1000_8000) by (nonlinear_arith)
        requires
            0 <= t <= 0x1000_8000,
    ;
    assert(-0x1000_0000 <= rx2 * (y - 1) <= 0x1000_0000 * 16384) by (nonlinear_arith)
        requires
            0 <= rx2 <= 0x1000_0000,
            -1 <= y - 1 <= 16384,
    ;
    assert(0 <= rx2 * (y - 1) * (y - 1) <= 0x1000_0000 * (16384 * 16384)) by (nonlinear_arith)
        requires
            0 <= rx2 <= 0x1000_0000,
            -1 <= y - 1 <= 16384,
    ;
    assert(0 <= rx2 * ry2 <= 0x1000_0000 * 0x1000_0000) by (nonlinear_arith)
        requires
            0 <= rx2 <= 0x1000_0000,
            0 <= ry2 <= 0x1000_0000,
    ;
}

/// The second region's decision value in closed form, with `x0` where the
/// region began.
pub open spec fn f2(rx2: int, ry2: int, x: int, y: int, x0: int) -> int {
    ry2 * (x + 1) * (x + 1) + rx2 * (y - 1) * (y - 1) - rx2 * ry2 - ry2 * (x - x0)
}

proof fn lemma_f2_step(rx2: int, ry2: int, x: int, y: int, x0: int)
    ensures
        f2(rx2, ry2, x, y - 1, x0) == f2(rx2, ry2, x, y, x0) + rx2 - 2 * rx2 * (y - 1),
        f2(rx2, ry2, x + 1, y - 1, x0) == f2(rx2, ry2, x, y, x0) + rx2 - 2 * rx2 * (y - 1) + 2 * ry2 * (x + 1),
{
    assert(rx2 * (y - 2) * (y - 2) == rx2 * (y - 1) * (y - 1) + rx2 - 2 * rx2 * (y - 1)) by (nonlinear_arith);
    assert(ry2 * (x + 2) * (x + 2) == ry2 * (x + 1) * (x + 1) + ry2 + 2 * ry2 * (x + 1)) by (nonlinear_arith);
    assert(ry2 * (x + 1 - x0) == ry2 * (x - x0) + ry2) by (nonlinear_arith);
}

/// Bounds that keep the second region within 64 bits.
proof fn lemma_f2_bound(a: int, b: int, rx2: int, ry2: int, x: int, y: int, x0: int, y0: int)
    requires
        1 <= a <= 16384,
        1 <= b <= 16384,
        rx2 == a * a,
        ry2 == b * b,
        0 <= x0 <= x,
        b * x0 <= rx2 + b,
        -1 <= y <= y0 <= b,
        x - x0 <= y0 - y,
    ensures
        -0x1000_0000_0000_0000 < f2(rx2, ry2, x, y, x0) < 0x1000_0000_0000_0000,
        x <= 0x2001_0000,
        0 <= 2 * ry2 * (x + 1) <= 0x0800_0000_0000_0000,
        -0x4000_0000 <= 2 * rx2 * (y - 1) <= 0x0000_1000_0000_0000,
{
    lemma_square_bound(a);
    lemma_square_bound(b);
    let d = x - x0;
    assert(0 <= d <= b + 1);
    assert(b * d <= 16384 * 16385) by (nonlinear_arith)
        requires
            0 <= d <= b + 1,
            1 <= b <= 16384,
    ;
    let t = b * (x + 1);
    assert(t == b * x0 + b * d + b) by (nonlinear_arith)
        requires
            t == b * (x + 1),
            d == x - x0,
    ;
    assert(0 <= b * d) by (nonlinear_arith)
        requires
            0 <= d,
            b >= 1,
    ;
    assert(0 <= b * x0) by (nonlinear_arith)
        requires
            0 <= x0,
            b >= 1,
    ;
    assert(0 <= t <= 0x2001_0000);
    assert(ry2 * (x + 1) * (x + 1) == t * t) by (nonlinear_arith)
        requires
            ry2 == b * b,
            t == b * (x + 1),
    ;
    assert(0 <= t * t <= 0x2001_0000 * 0x2001_0000) by (nonlinear_arith)
        requires
            0 <= t <= 0x2001_0000,
    ;
    assert(0 <= rx2 * (y - 1) * (y - 1) <= 0x1000_0000 * (16385 * 16385)) by (nonlinear_arith)
        requires
            0 <= rx2 <= 0x1000_0000,
            -2 <= y - 1 <= 16383,
    ;
    assert(0 <= rx2 * ry2 <= 0x1000_0000 * 0x1000_0000) by (nonlinear_arith)
        requires
            0 <= rx2 <= 0x1000_0000,
            0 <= ry2 <= 0x1000_0000,
    ;
    assert(0 <= ry2 * d <= 0x1000_0000 * 16385) by (nonlinear_arith)
        requires
            0 <= d <= 16385,
            0 <= ry2 <= 0x1000_0000,
    ;
    assert(x <= t) by (nonlinear_arith)
        requires
            t == b * (x + 1),
            b >= 1,
            x >= 0,
    ;
    assert(0 <= 2 * ry2 * (x + 1) <= 2 * 0x1000_0000 * 0x2001_0000) by (nonlinear_arith)
        requires
            0 <= ry2 <= 0x1000_0000,
            0 <= x + 1 <= 0x2001_0000,
    ;
    assert(-0x4000_0000 <= 2 * rx2 * (y - 1) <= 2 * 0x1000_0000 * 16384) by (nonlinear_arith)
        requires
            0 <= rx2 <= 0x1000_0000,
            -2 <= y - 1 <= 16384,
    ;
}

/// `2 k v` moves by `2 k` when `v` moves by one.
proof fn lemma_double_step(k: int, v: int)
    ensures
        2 * k * (v + 1) == 2 * k * v + 2 * k,
        2 * k * (v - 1) == 2 * k * v - 2 * k,
{
    assert(2 * k * (v + 1) == 2 * k * v + 2 * k) by (nonlinear_arith);
    assert(2 * k * (v - 1) == 2 * k * v - 2 * k) by (nonlinear_arith);
}

/// Draw the outline of the ellipse centred on `(cx, cy)` with radii `rx`,
/// `ry` (each cut to the largest drawn) by the midpoint algorithm; nothing
/// for a radius that is not positive or a surface without storage.
pub fn draw_ellipse_midpoint(s: &mut GdiSurface, cx: i32, cy: i32, rx: i32, ry: i32, color: u32)
    requires
        old(s).wf(),
        old(s).has_bits() ==> outline_fits(cx as int, cy as int, rx as int, ry as int),
    ensures
        final(s).wf(),
        if old(s).has_bits() {
            points_painted(*old(s), *final(s), quads(cx as int, cy as int, ellipse_offsets(rx as int, ry as int)), color)
        } else {
            *final(s) == *old(s)
        },
{
    let ghost before = *s;
    let ghost (orx, ory) = (rx as int, ry as int);
    if rx <= 0 || ry <= 0 {
        proof {
            if before.has_bits() {
                assert(quads(cx as int, cy as int, ellipse_offsets(rx as int, ry as int)) =~= Seq::<(int, int)>::empty());
            }
        }
        return;
    }
    if s.bits.is_none() {
        return;
    }
    let rx = if rx < MAX_ELLIPSE_DIMENSION { rx } else { MAX_ELLIPSE_DIMENSION };
    let ry = if ry < MAX_ELLIPSE_DIMENSION { ry } else { MAX_ELLIPSE_DIMENSION };
    let ghost (a, b) = (rx as int, ry as int);
    proof {
        lemma_square_bound(a);
        lemma_square_bound(b);
    }
    let rx2: i64 = (rx as i64) * (rx as i64);
    let ry2: i64 = (ry as i64) * (ry as i64);
    let two_rx2: i64 = 2i64 * rx2;
    let two_ry2: i64 = 2i64 * ry2;
    let ghost (gcx, gcy) = (cx as int, cy as int);
    proof {
        lemma_f1_bound(a, b, rx2 as int, ry2 as int, 0, b);
        assert(0 <= rx2 * b <= 0x1000_0000 * 16384) by (nonlinear_arith)
            requires
                0 <= rx2 <= 0x1000_0000,
                1 <= b <= 16384,
        ;
    }
    let mut x: i64 = 0;
    let mut y: i64 = ry as i64;
    let mut px: i64 = 0;
    let mut py: i64 = two_rx2 * y;
    let mut p: i64 = ry2 - (rx2 * ry as i64) + (rx2 / 4);
    let ghost s0: MidState = (0, b, 0, 2 * rx2 * b, ry2 - rx2 * b + rx2 / 4);
    let ghost full1 = m1_offsets(rx2 as int, ry2 as int, s0);
    let ghost e = m1_end(rx2 as int, ry2 as int, s0);
    let ghost mut done: Seq<(int, int)> = Seq::empty();
    proof {
        assert(ellipse_offsets(orx, ory) == ellipse_offsets(a, b));
        assert(quads(gcx, gcy, done) =~= Seq::<(int, int)>::empty());
        assert(f1(rx2 as int, ry2 as int, 0, b) == ry2 - rx2 * b + rx2 / 4) by (nonlinear_arith)
            requires
                ry2 == b * b,
        ;
        assert(py == 2 * rx2 * b);
    }
    while px < py
        invariant
            s.wf(),
            s.has_bits(),
            1 <= rx <= 16384 && 1 <= ry <= 16384,
            a == rx && b == ry && gcx == cx && gcy == cy,
            rx2 == a * a && ry2 == b * b && two_rx2 == 2 * rx2 && two_ry2 == 2 * ry2,
            1 <= rx2 <= 0x1000_0000 && 1 <= ry2 <= 0x1000_0000,
            0 <= x && 0 <= y <= b,
            b * x <= rx2 + b,
            px == 2 * ry2 * x,
            py == 2 * rx2 * y,
            p == f1(rx2 as int, ry2 as int, x as int, y as int),
            full1 == done + m1_offsets(rx2 as int, ry2 as int, (x as int, y as int, px as int, py as int, p as int)),
            m1_end(rx2 as int, ry2 as int, (x as int, y as int, px as int, py as int, p as int)) == e,
            points_painted(before, *s, quads(gcx, gcy, done), color),
            outline_fits(gcx, gcy, a, b),
            ellipse_offsets(a, b) == full1 + m2_offsets(rx2 as int, ry2 as int,
                (e.0, e.1, e.2, e.3, ry2 * (e.0 + 1) * (e.0 + 1) + rx2 * (e.1 - 1) * (e.1 - 1) - rx2 * ry2)),
        decreases (if px < py { py - px } else { 0 }),
    {
        let ghost st: MidState = (x as int, y as int, px as int, py as int, p as int);
        proof {
            lemma_square_bound(a);
            lemma_square_bound(b);
            lemma_r1_x_bound(b, x as int, y as int, rx2 as int, ry2 as int);
            lemma_f1_bound(a, b, rx2 as int, ry2 as int, x as int, y as int);
            assert(full1[done.len() as int] == (x as int, y as int));
            assert(ellipse_offsets(a, b)[done.len() as int] == (x as int, y as int));
        }
        draw_pixel_symmetric(s, cx, cy, x as i32, y as i32, color, Ghost(before), Ghost(quads(gcx, gcy, done)));
        proof {
            lemma_quads_push(gcx, gcy, done, (x as int, y as int));
            done = done.push((x as int, y as int));
            lemma_f1_step(rx2 as int, ry2 as int, x as int, y as int);
            lemma_double_step(ry2 as int, x as int);
            lemma_double_step(rx2 as int, y as int);
            assert(b * (x + 1) == b * x + b) by (nonlinear_arith);
            assert(py > 0);
            assert(y > 0) by (nonlinear_arith)
                requires
                    py == 2 * rx2 * y,
                    py > 0,
                    rx2 >= 1,
            ;
        }
        x = x + 1;
        px = px + two_ry2;
        if p < 0 {
            p = p + ry2 + px;
        } else {
            y = y - 1;
            py = py - two_rx2;
            p = p + ry2 + px - py;
        }
        proof {
            assert(m1_next(rx2 as int, ry2 as int, st) == (x as int, y as int, px as int, py as int, p as int));
            assert(full1 =~= done + m1_offsets(rx2 as int, ry2 as int, (x as int, y as int, px as int, py as int, p as int)));
        }
    }
    proof {
        assert(e == (x as int, y as int, px as int, py as int, p as int));
        assert(done =~= full1);
        lemma_r2_start_bound(a, b, rx2 as int, ry2 as int, x as int, y as int);
    }
    let ghost x0 = x as int;
    let ghost y0 = y as int;
    let xa: i64 = ry2 * (x + 1);
    let yb: i64 = rx2 * (y - 1);
    p = xa * (x + 1) + yb * (y - 1) - rx2 * ry2;
    proof {
        assert(p == f2(rx2 as int, ry2 as int, x as int, y as int, x0));
    }
    while y >= 0
        invariant
            s.wf(),
            s.has_bits(),
            1 <= rx <= 16384 && 1 <= ry <= 16384,
            a == rx && b == ry && gcx == cx && gcy == cy,
            rx2 == a * a && ry2 == b * b && two_rx2 == 2 * rx2 && two_ry2 == 2 * ry2,
            1 <= rx2 <= 0x1000_0000 && 1 <= ry2 <= 0x1000_0000,
            0 <= x0 <= x,
            b * x0 <= rx2 + b,
            -1 <= y <= y0 <= b,
            x - x0 <= y0 - y,
            px == 2 * ry2 * x,
            py == 2 * rx2 * y,
            p == f2(rx2 as int, ry2 as int, x as int, y as int, x0),
            ellipse_offsets(a, b) == done + m2_offsets(rx2 as int, ry2 as int, (x as int, y as int, px as int, py as int, p as int)),
            points_painted(before, *s, quads(gcx, gcy, done), color),
            outline_fits(gcx, gcy, a, b),
        decreases y + 1,
    {
        let ghost st: MidState = (x as int, y as int, px as int, py as int, p as int);
        proof {
            lemma_f2_bound(a, b, rx2 as int, ry2 as int, x as int, y as int, x0, y0);
            assert(ellipse_offsets(a, b)[done.len() as int] == (x as int, y as int));
        }
        draw_pixel_symmetric(s, cx, cy, x as i32, y as i32, color, Ghost(before), Ghost(quads(gcx, gcy, done)));
        proof {
            lemma_quads_push(gcx, gcy, done, (x as int, y as int));
            done = done.push((x as int, y as int));
            lemma_f2_step(rx2 as int, ry2 as int, x as int, y as int, x0);
            lemma_double_step(ry2 as int, x as int);
            lemma_double_step(rx2 as int, y as int);
        }
        y = y - 1;
        py = py - two_rx2;
        if p > 0 {
            p = p + rx2 - py;
        } else {
            x = x + 1;
            px = px + two_ry2;
            p = p + rx2 - py + px;
        }
        proof {
            assert(m2_next(rx2 as int, ry2 as int, st) == (x as int, y as int, px as int, py as int, p as int));
            assert(ellipse_offsets(a, b) =~= done + m2_offsets(rx2 as int, ry2 as int,
                (x as int, y as int, px as int, py as int, p as int)));
        }
    }
    proof {
        assert(m2_offsets(rx2 as int, ry2 as int, (x as int, y as int, px as int, py as int, p as int)) =~= Seq::<(int, int)>::empty());
        assert(done =~= ellipse_offsets(a, b));
    }
}

/// The half-width of the filled ellipse's row at offset `y` from the
/// centre: `(rx² - rx y² / ry) / rx` in whole numbers, or 0 where that is
/// negative.
pub open spec fn fill_extent(rx: int, ry: int, y: int) -> int {
    let n = rx * rx - (rx * (y * y)) / ry;
    if n >= 0 { n / rx } else { 0 }
}

/// `(px, py)` is inside the filled ellipse centred on `(cx, cy)` with radii
/// `rx`, `ry`: on a row within `ry` of the centre, within that row's
/// half-width of it.
pub open spec fn in_filled_ellipse(cx: int, cy: int, rx: int, ry: int, px: int, py: int) -> bool {
    &&& rx > 0 && ry > 0
    &&& -ry <= py - cy <= ry
    &&& cx - fill_extent(rx, ry, py - cy) <= px <= cx + fill_extent(rx, ry, py - cy)
}

/// The part of the filled ellipse before row offset `yr`, and on that row
/// before column `xr`.
pub open spec fn filled_before(cx: int, cy: int, rx: int, ry: int, yr: int, xr: int, px: int, py: int) -> bool {
    &&& in_filled_ellipse(cx, cy, rx, ry, px, py)
    &&& (py - cy < yr || (py - cy == yr && px < xr))
}

/// The fill's arithmetic stays within 32 bits: the row offset squared,
/// and the extreme rows and columns.
pub open spec fn fill_fits(cx: int, cy: int, rx: int, ry: int) -> bool {
    &&& ry <= 46340
    &&& in32(cx - rx) && in32(cx + rx) && in32(cy - ry) && in32(cy + ry)
}

proof fn lemma_extent_le(rx: int, q: int)
    requires
        rx > 0,
        0 <= q <= rx * rx,
    ensures
        0 <= (rx * rx - q) / rx <= rx,
{
    vstd::arithmetic::div_mod::lemma_div_is_ordered(rx * rx - q, rx * rx, rx);
    vstd::arithmetic::div_mod::lemma_div_is_ordered(0, rx * rx - q, rx);
    vstd::arithmetic::div_mod::lemma_div_multiples_vanish(rx, rx);
}

/// Fill the ellipse centred on `(cx, cy)` with radii `rx`, `ry` row by
/// row; nothing for a radius that is not positive or a surface without
/// storage.
pub fn fill_ellipse(s: &mut GdiSurface, cx: i32, cy: i32, rx: i32, ry: i32, color: u32)
    requires
        old(s).wf(),
        rx > 0 && ry > 0 && old(s).has_bits() ==> fill_fits(cx as int, cy as int, rx as int, ry as int),
    ensures
        final(s).wf(),
        if old(s).has_bits() {
            pixels_mapped(*old(s), *final(s),
                |px: int, py: int| in_filled_ellipse(cx as int, cy as int, rx as int, ry as int, px, py), |v: u32| color)
        } else {
            *final(s) == *old(s)
        },
{
    let ghost s0 = *s;
    if rx <= 0 || ry <= 0 || s.bits.is_none() {
        return;
    }
    let ghost (gcx, gcy, grx, gry) = (cx as int, cy as int, rx as int, ry as int);
    let rxu: u64 = rx as u64;
    let ryu: u64 = ry as u64;
    let mut y: i32 = -ry;
    while y <= ry
        invariant
            s.wf(),
            s.has_bits(),
            s0.wf(),
            s0.has_bits(),
            0 < rx && 0 < ry,
            gcx == cx && gcy == cy && grx == rx && gry == ry,
            fill_fits(gcx, gcy, grx, gry),
            rxu == rx && ryu == ry,
            -ry <= y <= ry + 1,
            pixels_mapped(s0, *s, |px: int, py: int| filled_before(gcx, gcy, grx, gry, y as int, i32::MIN as int, px, py),
                |v: u32| color),
        decreases ry + 1 - y,
    {
        proof {
            assert(0 <= y * y <= 46340 * 46340) by (nonlinear_arith)
                requires
                    -46340 <= y <= 46340,
            ;
            assert(0 <= rx * (y * y) <= 0x8000_0000 * 0x8000_0000) by (nonlinear_arith)
                requires
                    0 <= y * y <= 46340 * 46340,
                    0 < rx < 0x8000_0000,
            ;
            assert(rx * rx <= 0x8000_0000 * 0x8000_0000) by (nonlinear_arith)
                requires
                    0 < rx < 0x8000_0000,
            ;
        }
        let y2: u64 = (y * y) as u64;
        let q: u64 = rxu * y2 / ryu;
        let sq: u64 = rxu * rxu;
        let e64: u64 = if q <= sq { (sq - q) / rxu } else { 0 };
        proof {
            if q <= sq {
                lemma_extent_le(grx, q as int);
            }
            assert(e64 == fill_extent(grx, gry, y as int));
        }
        let e: i32 = e64 as i32;
        let row: i32 = cy + y;
        let end: i64 = cx as i64 + e as i64;
        let mut x: i64 = cx as i64 - e as i64;
        let ghost start = x as int;
        proof {
            assert forall|px: int, py: int| #[trigger] s.in_bounds(px, py) && s.has_bits() implies
                filled_before(gcx, gcy, grx, gry, y as int, i32::MIN as int, px, py)
                    == filled_before(gcx, gcy, grx, gry, y as int, x as int, px, py) by {
            }
        }
        while x <= end
            invariant
                s.wf(),
                s.has_bits(),
                s0.wf(),
                s0.has_bits(),
                0 < rx && 0 < ry,
                gcx == cx && gcy == cy && grx == rx && gry == ry,
                fill_fits(gcx, gcy, grx, gry),
                -ry <= y <= ry,
                row == cy + y,
                e == fill_extent(grx, gry, y as int),
                0 <= e <= rx,
                end == cx + e,
                cx - e <= x <= end + 1,
                pixels_mapped(s0, *s, |px: int, py: int| filled_before(gcx, gcy, grx, gry, y as int, x as int, px, py),
                    |v: u32| color),
            decreases end + 1 - x,
        {
            let ghost si = *s;
            let _ = s.set_pixel(x as i32, row, color);
            proof {
                assert forall|px: int, py: int| #[trigger] s.in_bounds(px, py) && s.has_bits() implies
                    s.px(px, py) == if filled_before(gcx, gcy, grx, gry, y as int, x + 1, px, py) { color } else { s0.px(px, py) } by {
                    assert(si.in_bounds(px, py));
                }
            }
            x = x + 1;
        }
        proof {
            assert forall|px: int, py: int| #[trigger] s.in_bounds(px, py) && s.has_bits() implies
                filled_before(gcx, gcy, grx, gry, y as int, x as int, px, py)
                    == filled_before(gcx, gcy, grx, gry, y + 1, i32::MIN as int, px, py) by {
                if py - gcy == y + 1 && in_filled_ellipse(gcx, gcy, grx, gry, px, py) {
                    assert(fill_extent(grx, gry, py - gcy) >= 0) by {
                        let n = grx * grx - (grx * ((py - gcy) * (py - gcy))) / gry;
                        if n >= 0 {
                            vstd::arithmetic::div_mod::lemma_div_is_ordered(0, n, grx);
                        }
                    }
                }
            }
        }
        y = y + 1;
    }
    proof {
        assert forall|px: int, py: int| #[trigger] s.in_bounds(px, py) && s.has_bits() implies
            filled_before(gcx, gcy, grx, gry, y as int, i32::MIN as int, px, py)
                == in_filled_ellipse(gcx, gcy, grx, gry, px, py) by {
        }
    }
}

/// Half of `v`, rounded toward zero (the 32-bit division the centre and
/// radii are computed with).
pub open spec fn half_toward_zero(v: int) -> int {
    if v >= 0 { v / 2 } else { -((-v) / 2) }
}

/// The sums and differences of an ellipse call's corners are within 32
/// bits.
pub open spec fn ellipse_args_ok(left: i32, top: i32, right: i32, bottom: i32) -> bool {
    &&& in32(left + right) && in32(top + bottom)
    &&& in32(right - left) && in32(bottom - top)
}

/// The centre and radii of the ellipse in the rectangle `left, top, right,
/// bottom`.
pub open spec fn ellipse_geometry(left: i32, top: i32, right: i32, bottom: i32) -> (int, int, int, int) {
    (half_toward_zero(left + right), half_toward_zero(top + bottom),
        half_toward_zero(right - left), half_toward_zero(bottom - top))
}

/// The pixels of an ellipse drawn with a pen colour on its outline and,
/// when `brush_on`, filled with a brush colour inside radii one less.
pub open spec fn ellipse_drawn(s: GdiSurface, s2: GdiSurface, cx: int, cy: int, rx: int, ry: int,
    pen: u32, brush_on: bool, brush: u32) -> bool {
    &&& s.same_but_pixels(&s2)
    &&& forall|px: int, py: int| #[trigger] s2.in_bounds(px, py) && s2.has_bits() ==>
        s2.px(px, py) == if brush_on && in_filled_ellipse(cx, cy, rx - 1, ry - 1, px, py) {
            brush
        } else if quads(cx, cy, ellipse_offsets(rx, ry)).contains((px, py)) {
            pen
        } else {
            s.px(px, py)
        }
}

/// What a call of `GreEllipse` needs of its arguments: its arithmetic,
/// the outline's points and, with a brush, the fill's rows and columns
/// stay within 32 bits.
pub open spec fn ellipse_call_ok(dc: &DcObject, left: i32, top: i32, right: i32, bottom: i32) -> bool {
    let g = ellipse_geometry(left, top, right, bottom);
    &&& ellipse_args_ok(left, top, right, bottom)
    &&& outline_fits(g.0, g.1, g.2, g.3)
    &&& (dc.brush != 0 && g.2 > 1 && g.3 > 1 ==> fill_fits(g.0, g.1, g.2 - 1, g.3 - 1))
}

/// GreEllipse: draw the ellipse inscribed in `left, top, right, bottom`:
/// the outline with the pen colour and, when a brush is selected, the
/// inside with the brush colour. False with no surface (a surface without
/// storage is left as it is, and the result is true).
#[allow(non_snake_case)]
pub fn GreEllipse(surfaces: &mut SurfaceTable, gdi: &GdiState, dc: &DcObject, left: i32, top: i32, right: i32, bottom: i32) -> (r: bool)
    requires
        old(surfaces).wf(),
        ellipse_call_ok(dc, left, top, right, bottom),
    ensures
        surface_changed(old(surfaces), final(surfaces), dc_surface_addr(dc, old(surfaces).primary),
            |s: GdiSurface, s2: GdiSurface| if s.has_bits() {
                ellipse_drawn(s, s2, ellipse_geometry(left, top, right, bottom).0, ellipse_geometry(left, top, right, bottom).1,
                    ellipse_geometry(left, top, right, bottom).2, ellipse_geometry(left, top, right, bottom).3,
                    dc_pen_color(gdi, dc), dc.brush != 0, dc_brush_color(gdi, dc))
            } else {
                s2 == s
            }),
        r == old(surfaces).at(dc_surface_addr(dc, old(surfaces).primary)) is Some,
{
    let a = get_dc_surface(dc, surfaces);
    match surfaces.take(a) {
        Some(mut s) => {
            let cx = (left + right) / 2;
            let cy = (top + bottom) / 2;
            let rx = (right - left) / 2;
            let ry = (bottom - top) / 2;
            let pen = dc_pen_color_exec(gdi, dc);
            let ghost s0 = s;
            draw_ellipse_midpoint(&mut s, cx, cy, rx, ry, pen);
            let ghost s1 = s;
            if dc.brush != 0 {
                let brush = dc_brush_color_exec(gdi, dc);
                fill_ellipse(&mut s, cx, cy, rx - 1, ry - 1, brush);
            }
            proof {
                if s0.has_bits() {
                    let q = quads(cx as int, cy as int, ellipse_offsets(rx as int, ry as int));
                    assert forall|px: int, py: int| #[trigger] s.in_bounds(px, py) && s.has_bits() implies
                        s.px(px, py) == if dc.brush != 0 && in_filled_ellipse(cx as int, cy as int, rx - 1, ry - 1, px, py) {
                            dc_brush_color(gdi, dc)
                        } else if q.contains((px, py)) {
                            dc_pen_color(gdi, dc)
                        } else {
                            s0.px(px, py)
                        } by {
                        assert(s1.in_bounds(px, py));
                    }
                }
            }
            surfaces.put(a, s);
            true
        },
        None => false,
    }
}

/// The outline is symmetric about the centre's column and row: with each
/// point drawn, its mirror images across `x = cx` and `y = cy` are drawn
/// too.
pub proof fn lemma_outline_symmetric(cx: int, cy: int, offs: Seq<(int, int)>, p: (int, int))
    requires
        quads(cx, cy, offs).contains(p),
    ensures
        quads(cx, cy, offs).contains((2 * cx - p.0, p.1)),
        quads(cx, cy, offs).contains((p.0, 2 * cy - p.1)),
    decreases offs.len(),
{
    let q = quads(cx, cy, offs);
    let k = choose|k: int| 0 <= k < q.len() && q[k] == p;
    if offs.len() > 0 {
        let head = quads(cx, cy, offs.drop_last());
        let last = quad_points(cx, cy, offs.last());
        assert(q == head + last);
        if k < head.len() {
            assert(head[k] == p);
            assert(head.contains(p));
            lemma_outline_symmetric(cx, cy, offs.drop_last(), p);
            let i = choose|i: int| 0 <= i < head.len() && head[i] == (2 * cx - p.0, p.1);
            assert(q[i] == (2 * cx - p.0, p.1));
            let j = choose|j: int| 0 <= j < head.len() && head[j] == (p.0, 2 * cy - p.1);
            assert(q[j] == (p.0, 2 * cy - p.1));
        } else {
            let o = offs.last();
            let b = head.len() as int;
            assert(last[k - b] == p);
            assert(q[b] == (cx + o.0, cy + o.1));
            assert(q[b + 1] == (cx - o.0, cy + o.1));
            assert(q[b + 2] == (cx + o.0, cy - o.1));
            assert(q[b + 3] == (cx - o.0, cy - o.1));
        }
    }
}

/// The filled ellipse is symmetric about the centre's column and row.
pub proof fn lemma_fill_symmetric(cx: int, cy: int, rx: int, ry: int, px: int, py: int)
    ensures
        in_filled_ellipse(cx, cy, rx, ry, px, py) == in_filled_ellipse(cx, cy, rx, ry, 2 * cx - px, py),
        in_filled_ellipse(cx, cy, rx, ry, px, py) == in_filled_ellipse(cx, cy, rx, ry, px, 2 * cy - py),
{
    let y = py - cy;
    assert((2 * cy - py - cy) == -y);
    assert((-y) * (-y) == y * y) by (nonlinear_arith);
    assert(fill_extent(rx, ry, -y) == fill_extent(rx, ry, y));
}

} // verus!
