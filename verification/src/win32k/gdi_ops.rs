//! GDI drawing operations on surfaces: raster operations, rectangle fills,
//! Bresenham lines, pixel access and block transfers through DCs.

use vstd::prelude::*;
use crate::win32k::objects::{GdiState, GdiGetBrushColor, GdiGetPenColor, GdiGetPenWidth, brush_color_spec, pen_color_spec,
    pen_width_spec};
use crate::win32k::dc::DcObject;
use crate::win32k::surface::{GdiSurface, SurfaceTable, is_32bpp, grid_shape, rows_for, put_pixel};

verus! {

/// Raster operation codes.
pub const SRCCOPY: u32 = 0x00CC0020;
pub const SRCPAINT: u32 = 0x00EE0086;
pub const SRCAND: u32 = 0x008800C6;
pub const SRCINVERT: u32 = 0x00660046;
pub const SRCERASE: u32 = 0x00440328;
pub const NOTSRCCOPY: u32 = 0x00330008;
pub const NOTSRCERASE: u32 = 0x001100A6;
pub const MERGECOPY: u32 = 0x00C000CA;
pub const MERGEPAINT: u32 = 0x00BB0226;
pub const PATCOPY: u32 = 0x00F00021;
pub const PATPAINT: u32 = 0x00FB0A09;
pub const PATINVERT: u32 = 0x005A0049;
pub const DSTINVERT: u32 = 0x00550009;
pub const BLACKNESS: u32 = 0x00000042;
pub const WHITENESS: u32 = 0x00FF0062;

/// The pixel a raster operation produces from the destination, source and
/// pattern pixels; an unknown code copies the source.
pub open spec fn rop_spec(dest: u32, src: u32, pat: u32, rop: u32) -> u32 {
    if rop == SRCCOPY { src }
    else if rop == SRCPAINT { dest | src }
    else if rop == SRCAND { dest & src }
    else if rop == SRCINVERT { dest ^ src }
    else if rop == SRCERASE { dest & !src }
    else if rop == NOTSRCCOPY { !src }
    else if rop == NOTSRCERASE { !(dest | src) }
    else if rop == MERGECOPY { dest & pat }
    else if rop == MERGEPAINT { dest | !src }
    else if rop == PATCOPY { pat }
    else if rop == PATPAINT { dest | pat | !src }
    else if rop == PATINVERT { dest ^ pat }
    else if rop == DSTINVERT { !dest }
    else if rop == BLACKNESS { 0 }
    else if rop == WHITENESS { 0x00FFFFFF }
    else { src }
}

/// Apply a raster operation to a single pixel.
pub fn apply_rop(dest: u32, src: u32, pat: u32, rop: u32) -> (r: u32)
    ensures
        r == rop_spec(dest, src, pat, rop),
{
    if rop == SRCCOPY {
        src
    } else if rop == SRCPAINT {
        dest | src
    } else if rop == SRCAND {
        dest & src
    } else if rop == SRCINVERT {
        dest ^ src
    } else if rop == SRCERASE {
        dest & !src
    } else if rop == NOTSRCCOPY {
        !src
    } else if rop == NOTSRCERASE {
        !(dest | src)
    } else if rop == MERGECOPY {
        dest & pat
    } else if rop == MERGEPAINT {
        dest | !src
    } else if rop == PATCOPY {
        pat
    } else if rop == PATPAINT {
        dest | pat | !src
    } else if rop == PATINVERT {
        dest ^ pat
    } else if rop == DSTINVERT {
        !dest
    } else if rop == BLACKNESS {
        0
    } else if rop == WHITENESS {
        0x00FFFFFF
    } else {
        src
    }
}

/// The operation index of a raster-operation code: bits 16..24, the truth
/// table of the operation.
pub open spec fn rop_index(rop: u32) -> u32 {
    (rop >> 16u32) & 0xFF
}

/// The pixel the ternary raster operation with truth table `t` gives:
/// bit `i` of the result is bit `4p + 2s + d` of `t`, where `p`, `s` and
/// `d` are bit `i` of the pattern, the source and the destination.
pub open spec fn ternary_rop(t: u32, d: u32, s: u32, p: u32) -> u32 {
    (if t & 0x01 != 0 { !p & !s & !d } else { 0 })
    | (if t & 0x02 != 0 { !p & !s & d } else { 0 })
    | (if t & 0x04 != 0 { !p & s & !d } else { 0 })
    | (if t & 0x08 != 0 { !p & s & d } else { 0 })
    | (if t & 0x10 != 0 { p & !s & !d } else { 0 })
    | (if t & 0x20 != 0 { p & !s & d } else { 0 })
    | (if t & 0x40 != 0 { p & s & !d } else { 0 })
    | (if t & 0x80 != 0 { p & s & d } else { 0 })
}

/// Each standard raster operation computes, bit by bit, the truth table
/// its code carries: SRCCOPY, SRCPAINT, SRCAND, SRCINVERT, NOTSRCCOPY,
/// NOTSRCERASE, MERGEPAINT, PATCOPY, PATPAINT, PATINVERT, DSTINVERT and
/// BLACKNESS, for every destination, source and pattern pixel.
pub proof fn lemma_rop_truth_tables(d: u32, s: u32, p: u32)
    ensures
        rop_spec(d, s, p, SRCCOPY) == ternary_rop(rop_index(SRCCOPY), d, s, p),
        rop_spec(d, s, p, SRCPAINT) == ternary_rop(rop_index(SRCPAINT), d, s, p),
        rop_spec(d, s, p, SRCAND) == ternary_rop(rop_index(SRCAND), d, s, p),
        rop_spec(d, s, p, SRCINVERT) == ternary_rop(rop_index(SRCINVERT), d, s, p),
        rop_spec(d, s, p, NOTSRCCOPY) == ternary_rop(rop_index(NOTSRCCOPY), d, s, p),
        rop_spec(d, s, p, NOTSRCERASE) == ternary_rop(rop_index(NOTSRCERASE), d, s, p),
        rop_spec(d, s, p, MERGEPAINT) == ternary_rop(rop_index(MERGEPAINT), d, s, p),
        rop_spec(d, s, p, PATCOPY) == ternary_rop(rop_index(PATCOPY), d, s, p),
        rop_spec(d, s, p, PATPAINT) == ternary_rop(rop_index(PATPAINT), d, s, p),
        rop_spec(d, s, p, PATINVERT) == ternary_rop(rop_index(PATINVERT), d, s, p),
        rop_spec(d, s, p, DSTINVERT) == ternary_rop(rop_index(DSTINVERT), d, s, p),
        rop_spec(d, s, p, BLACKNESS) == ternary_rop(rop_index(BLACKNESS), d, s, p),
{
    assert(rop_index(SRCCOPY) == 0xCC && rop_index(SRCPAINT) == 0xEE && rop_index(SRCAND) == 0x88
        && rop_index(SRCINVERT) == 0x66 && rop_index(NOTSRCCOPY) == 0x33 && rop_index(NOTSRCERASE) == 0x11
        && rop_index(MERGEPAINT) == 0xBB && rop_index(PATCOPY) == 0xF0 && rop_index(PATPAINT) == 0xFB
        && rop_index(PATINVERT) == 0x5A && rop_index(DSTINVERT) == 0x55 && rop_index(BLACKNESS) == 0x00)
        by (bit_vector);
    assert(s == ternary_rop(0xCC, d, s, p)) by (bit_vector);
    assert((d | s) == ternary_rop(0xEE, d, s, p)) by (bit_vector);
    assert((d & s) == ternary_rop(0x88, d, s, p)) by (bit_vector);
    assert((d ^ s) == ternary_rop(0x66, d, s, p)) by (bit_vector);
    assert(!s == ternary_rop(0x33, d, s, p)) by (bit_vector);
    assert(!(d | s) == ternary_rop(0x11, d, s, p)) by (bit_vector);
    assert((d | !s) == ternary_rop(0xBB, d, s, p)) by (bit_vector);
    assert(p == ternary_rop(0xF0, d, s, p)) by (bit_vector);
    assert((d | p | !s) == ternary_rop(0xFB, d, s, p)) by (bit_vector);
    assert((d ^ p) == ternary_rop(0x5A, d, s, p)) by (bit_vector);
    assert(!d == ternary_rop(0x55, d, s, p)) by (bit_vector);
    assert(0u32 == ternary_rop(0x00, d, s, p)) by (bit_vector);
}

/// SRCERASE keeps the destination bits the source does not have, MERGECOPY
/// the destination bits the pattern has, and WHITENESS gives white in 24-bit
/// RGB; a code that is none of the known ones copies the source.
pub proof fn lemma_rop_other_codes(d: u32, s: u32, p: u32, rop: u32)
    ensures
        rop_spec(d, s, p, SRCERASE) & s == 0 && rop_spec(d, s, p, SRCERASE) | s == d | s,
        rop_spec(d, s, p, MERGECOPY) & !p == 0 && rop_spec(d, s, p, MERGECOPY) | !p == d | !p,
        rop_spec(d, s, p, WHITENESS) == 0x00FFFFFF,
        rop != SRCCOPY && rop != SRCPAINT && rop != SRCAND && rop != SRCINVERT && rop != SRCERASE
            && rop != NOTSRCCOPY && rop != NOTSRCERASE && rop != MERGECOPY && rop != MERGEPAINT && rop != PATCOPY
            && rop != PATPAINT && rop != PATINVERT && rop != DSTINVERT && rop != BLACKNESS && rop != WHITENESS
            ==> rop_spec(d, s, p, rop) == s,
{
    assert((d & !s) & s == 0 && ((d & !s) | s) == (d | s)) by (bit_vector);
    assert((d & p) & !p == 0 && ((d & p) | !p) == (d | !p)) by (bit_vector);
}

/// Apply SRCCOPY ROP (fast path).
pub fn rop_srccopy(dest: u32, src: u32, pat: u32) -> (r: u32)
    ensures
        r == rop_spec(dest, src, pat, SRCCOPY),
{
    src
}

/// Apply SRCPAINT ROP.
pub fn rop_srcpaint(dest: u32, src: u32, pat: u32) -> (r: u32)
    ensures
        r == rop_spec(dest, src, pat, SRCPAINT),
{
    dest | src
}

/// Apply SRCAND ROP.
pub fn rop_srcand(dest: u32, src: u32, pat: u32) -> (r: u32)
    ensures
        r == rop_spec(dest, src, pat, SRCAND),
{
    dest & src
}

/// Apply SRCINVERT ROP.
pub fn rop_srcinvert(dest: u32, src: u32, pat: u32) -> (r: u32)
    ensures
        r == rop_spec(dest, src, pat, SRCINVERT),
{
    dest ^ src
}

/// Inverting the destination twice gives it back; XOR-ing the same source
/// twice gives the destination back.
pub proof fn lemma_rop_involutions(dest: u32, src: u32, pat: u32)
    ensures
        rop_spec(rop_spec(dest, src, pat, DSTINVERT), src, pat, DSTINVERT) == dest,
        rop_spec(rop_spec(dest, src, pat, SRCINVERT), src, pat, SRCINVERT) == dest,
        rop_spec(rop_spec(dest, src, pat, PATINVERT), src, pat, PATINVERT) == dest,
{
    assert(!(!dest) == dest) by (bit_vector);
    assert((dest ^ src) ^ src == dest) by (bit_vector);
    assert((dest ^ pat) ^ pat == dest) by (bit_vector);
}

// =============================================================================
// Integer square root
// =============================================================================

/// Integer square root using Newton's method: the largest `r` with
/// `r * r <= n`.
pub fn isqrt(n: u64) -> (r: u64)
    ensures
        r * r <= n < (r + 1) * (r + 1),
{
    if n == 0 {
        return 0;
    }
    let ghost s = floor_sqrt(n as int);
    proof {
        lemma_floor_sqrt(n as int);
    }
    let nn: u128 = n as u128;
    let mut x: u128 = nn;
    let mut y: u128 = (x + 1) / 2;
    proof {
        lemma_newton_step_bound(n as int, x as int, s);
    }
    while y < x
        invariant
            nn == n,
            n > 0,
            s * s <= n < (s + 1) * (s + 1),
            s >= 1,
            s <= x <= n,
            s <= y,
            y == (x + nn / x) / 2 || y == (x + 1) / 2 && x == nn,
        decreases x,
    {
        x = y;
        assert(x >= 1);
        proof {
            lemma_newton_step_bound(n as int, x as int, s);
            assert(nn / x <= nn) by (nonlinear_arith)
                requires
                    x >= 1,
            ;
        }
        y = (x + nn / x) / 2;
    }
    proof {
        lemma_newton_fixpoint(n as int, x as int, y as int, s);
    }
    x as u64
}

/// The largest `s` with `s * s <= n` (for `n >= 0`).
pub open spec fn floor_sqrt(n: int) -> int
    decreases n,
{
    if n <= 0 {
        0
    } else {
        let t = floor_sqrt(n - 1);
        if (t + 1) * (t + 1) <= n { t + 1 } else { t }
    }
}

proof fn lemma_floor_sqrt(n: int)
    requires
        n >= 0,
    ensures
        floor_sqrt(n) >= 0,
        floor_sqrt(n) * floor_sqrt(n) <= n < (floor_sqrt(n) + 1) * (floor_sqrt(n) + 1),
        n >= 1 ==> floor_sqrt(n) >= 1,
    decreases n,
{
    if n > 0 {
        lemma_floor_sqrt(n - 1);
        let t = floor_sqrt(n - 1);
        if n == 1 {
            assert(floor_sqrt(0) == 0);
            assert((0int + 1) * (0int + 1) == 1);
        }
        if (t + 1) * (t + 1) <= n {
            assert(n < (t + 2) * (t + 2)) by (nonlinear_arith)
                requires
                    n - 1 < (t + 1) * (t + 1),
                    t >= 0,
            ;
        }
    }
}

/// A Newton step never goes below the floor square root.
proof fn lemma_newton_step_bound(n: int, x: int, s: int)
    requires
        n >= 1,
        x >= 1,
        s >= 0,
        s * s <= n,
    ensures
        (x + n / x) / 2 >= s,
        x == n ==> (x + 1) / 2 >= s,
{
    let q = n / x;
    assert(n < x * (q + 1)) by (nonlinear_arith)
        requires
            q == n / x,
            x >= 1,
    ;
    if (x + q) / 2 < s {
        assert(x + q <= 2 * s - 1);
        assert(false) by (nonlinear_arith)
            requires
                x + q <= 2 * s - 1,
                n < x * (q + 1),
                s * s <= n,
                x >= 1,
                q >= 0,
        ;
    }
    if x == n && (x + 1) / 2 < s {
        assert(false) by (nonlinear_arith)
            requires
                x == n,
                x + 1 <= 2 * s - 1,
                s * s <= n,
                n >= 1,
        ;
    }
}

/// When a Newton step does not go down, the value is the floor square root.
proof fn lemma_newton_fixpoint(n: int, x: int, y: int, s: int)
    requires
        n >= 1,
        x >= 1,
        s <= x,
        s >= 0,
        s * s <= n < (s + 1) * (s + 1),
        y >= x,
        y == (x + n / x) / 2 || y == (x + 1) / 2 && x == n,
    ensures
        x * x <= n < (x + 1) * (x + 1),
{
    if x > s {
        assert(x * x > n) by (nonlinear_arith)
            requires
                x >= s + 1,
                n < (s + 1) * (s + 1),
                s >= 0,
        ;
        assert(n / x < x) by (nonlinear_arith)
            requires
                x * x > n,
                x >= 1,
                n >= 0,
        ;
        if x == n && y == (x + 1) / 2 {
            assert(x >= 2) by (nonlinear_arith)
                requires
                    x * x > n,
                    x == n,
                    x >= 1,
            ;
        }
        assert(false);
    }
}

// =============================================================================
// Rectangle fills
// =============================================================================

/// Larger and smaller of two integers.
pub open spec fn max_int(a: int, b: int) -> int {
    if a >= b { a } else { b }
}

pub open spec fn min_int(a: int, b: int) -> int {
    if a <= b { a } else { b }
}

/// `(px, py)` lies in the rectangle `x, y, width, height` clipped to a
/// surface of `sw` x `sh` pixels.
pub open spec fn in_clipped_rect(x: int, y: int, width: int, height: int, sw: int, sh: int, px: int, py: int) -> bool {
    &&& max_int(x, 0) <= px < min_int(x + width, sw)
    &&& max_int(y, 0) <= py < min_int(y + height, sh)
}

/// `after` is `before` with every on-surface pixel `(x, y)` for which
/// `hit(x, y)` holds replaced by `f(old pixel)`.
pub open spec fn pixels_mapped(before: GdiSurface, after: GdiSurface, hit: spec_fn(int, int) -> bool, f: spec_fn(u32) -> u32) -> bool {
    &&& before.same_but_pixels(&after)
    &&& forall|px: int, py: int| #[trigger] after.in_bounds(px, py) && after.has_bits() ==>
        after.px(px, py) == if hit(px, py) { f(before.px(px, py)) } else { before.px(px, py) }
}

/// Apply `f` to pixels `[left, right)` of row `y`, where `f` is "set to
/// `color`" (`invert` false) or "bitwise not" (`invert` true).
fn map_span(rows: &mut Vec<Vec<u32>>, y: usize, left: usize, right: usize, color: u32, invert: bool)
    requires
        y < old(rows)@.len(),
        left <= right <= old(rows)@[y as int]@.len(),
    ensures
        final(rows)@.len() == old(rows)@.len(),
        forall|j: int| 0 <= j < old(rows)@.len() ==> (#[trigger] final(rows)@[j])@.len() == old(rows)@[j]@.len(),
        forall|i: int, j: int| #![trigger final(rows)@[j]@[i]] 0 <= j < old(rows)@.len() && 0 <= i < old(rows)@[j]@.len() ==>
            final(rows)@[j]@[i] == if j == y && left <= i < right {
                if invert { !old(rows)@[j]@[i] } else { color }
            } else {
                old(rows)@[j]@[i]
            },
{
    let mut row: Vec<u32> = Vec::new();
    rows.set_and_swap(y, &mut row);
    let ghost orig = row@;
    let mut x = left;
    while x < right
        invariant
            left <= x <= right,
            right <= row@.len(),
            row@.len() == orig.len(),
            forall|i: int| 0 <= i < orig.len() ==> row@[i] == if left <= i < x {
                if invert { !orig[i] } else { color }
            } else {
                orig[i]
            },
        decreases right - x,
    {
        let v = if invert { !row[x] } else { color };
        row.set(x, v);
        x = x + 1;
    }
    rows.set_and_swap(y, &mut row);
}

/// Fill (or invert) the part of a rectangle that lies on a 32-bit surface.
fn map_rect(s: &mut GdiSurface, x: i32, y: i32, width: i32, height: i32, color: u32, invert: bool)
    requires
        old(s).wf(),
    ensures
        pixels_mapped(*old(s), *final(s),
            |px: int, py: int| is_32bpp(old(s).format) && in_clipped_rect(x as int, y as int, width as int, height as int,
                old(s).width as int, old(s).height as int, px, py),
            |v: u32| if invert { !v } else { color }),
{
    let left: i64 = if x > 0 { x as i64 } else { 0 };
    let top: i64 = if y > 0 { y as i64 } else { 0 };
    let right: i64 = if (x as i64) + (width as i64) < s.width as i64 { (x as i64) + (width as i64) } else { s.width as i64 };
    let bottom: i64 = if (y as i64) + (height as i64) < s.height as i64 { (y as i64) + (height as i64) } else { s.height as i64 };
    if left >= right || top >= bottom {
        return;
    }
    if !(s.format == 32 || s.format == 0x262) {
        return;
    }
    let ghost before = *s;
    match &mut s.bits {
        Some(rows) => {
            let ghost orig = rows@;
            let mut row = top;
            while row < bottom
                invariant
                    0 <= top <= row <= bottom <= before.height,
                    0 <= left < right <= before.width,
                    grid_shape(rows@, before.width as int, rows_for(before.height)),
                    grid_shape(orig, before.width as int, rows_for(before.height)),
                    forall|i: int, j: int| #![trigger rows@[j]@[i]] 0 <= j < rows_for(before.height) && 0 <= i < before.width ==>
                        rows@[j]@[i] == if top <= j < row && left <= i < right {
                            if invert { !orig[j]@[i] } else { color }
                        } else {
                            orig[j]@[i]
                        },
                decreases bottom - row,
            {
                map_span(rows, row as usize, left as usize, right as usize, color, invert);
                row = row + 1;
            }
        },
        None => {},
    }
}

/// Fill a rectangle (clipped to the surface) with a solid colour; only
/// 32-bit surfaces are written.
pub fn fill_rect_solid(s: &mut GdiSurface, x: i32, y: i32, width: i32, height: i32, color: u32) -> (r: bool)
    requires
        old(s).wf(),
    ensures
        r == old(s).has_bits(),
        pixels_mapped(*old(s), *final(s),
            |px: int, py: int| is_32bpp(old(s).format) && in_clipped_rect(x as int, y as int, width as int, height as int,
                old(s).width as int, old(s).height as int, px, py),
            |v: u32| color),
{
    if s.bits.is_none() {
        return false;
    }
    map_rect(s, x, y, width, height, color, false);
    true
}

/// Invert (bitwise not) the pixels of a rectangle clipped to the surface;
/// only 32-bit surfaces are written.
pub fn invert_rect(s: &mut GdiSurface, x: i32, y: i32, width: i32, height: i32) -> (r: bool)
    requires
        old(s).wf(),
    ensures
        r == old(s).has_bits(),
        pixels_mapped(*old(s), *final(s),
            |px: int, py: int| is_32bpp(old(s).format) && in_clipped_rect(x as int, y as int, width as int, height as int,
                old(s).width as int, old(s).height as int, px, py),
            |v: u32| !v),
{
    if s.bits.is_none() {
        return false;
    }
    map_rect(s, x, y, width, height, 0, true);
    true
}


// =============================================================================
// Lines (Bresenham)
// =============================================================================

pub open spec fn abs(x: int) -> int {
    if x < 0 { -x } else { x }
}

/// The points Bresenham's algorithm visits from `(x, y)` with error term
/// `err`, towards `(x1, y1)`, for a line with `dx = |x1 - x0|`,
/// `dy = -|y1 - y0|` and steps `sx`, `sy`. A step that would not bring the
/// point closer to the end stops the walk.
pub open spec fn line_from(x: int, y: int, err: int, x1: int, y1: int, dx: int, dy: int, sx: int, sy: int) -> Seq<(int, int)>
    decreases abs(x1 - x) + abs(y1 - y),
{
    if x == x1 && y == y1 {
        seq![(x, y)]
    } else {
        let e2 = 2 * err;
        let xmove = e2 >= dy;
        if xmove && x == x1 {
            seq![(x, y)]
        } else {
            let nx = if xmove { x + sx } else { x };
            let nerr = if xmove { err + dy } else { err };
            let ymove = e2 <= dx;
            if ymove && y == y1 {
                seq![(x, y)]
            } else {
                let ny = if ymove { y + sy } else { y };
                let nerr2 = if ymove { nerr + dx } else { nerr };
                if abs(x1 - nx) + abs(y1 - ny) < abs(x1 - x) + abs(y1 - y) {
                    seq![(x, y)] + line_from(nx, ny, nerr2, x1, y1, dx, dy, sx, sy)
                } else {
                    seq![(x, y)]
                }
            }
        }
    }
}

/// The points of the line from `(x0, y0)` to `(x1, y1)`.
pub open spec fn line_points(x0: int, y0: int, x1: int, y1: int) -> Seq<(int, int)> {
    let dx = abs(x1 - x0);
    let dy = -abs(y1 - y0);
    let sx = if x0 < x1 { 1int } else { -1int };
    let sy = if y0 < y1 { 1int } else { -1int };
    line_from(x0, y0, dx + dy, x1, y1, dx, dy, sx, sy)
}

/// `after` is `before` with the on-surface points of `pts` set to `color`.
pub open spec fn points_painted(before: GdiSurface, after: GdiSurface, pts: Seq<(int, int)>, color: u32) -> bool {
    &&& before.same_but_pixels(&after)
    &&& forall|px: int, py: int| #[trigger] after.in_bounds(px, py) && after.has_bits() ==>
        after.px(px, py) == if pts.contains((px, py)) { color } else { before.px(px, py) }
}

pub open spec fn between(a: int, lo_hi_1: int, lo_hi_2: int) -> bool {
    (lo_hi_1 <= a <= lo_hi_2) || (lo_hi_2 <= a <= lo_hi_1)
}

/// Draw a line with Bresenham's algorithm; the points off the surface are
/// skipped. False when the surface has no storage.
pub fn draw_line(s: &mut GdiSurface, x1: i32, y1: i32, x2: i32, y2: i32, color: u32) -> (r: bool)
    requires
        old(s).wf(),
    ensures
        r == old(s).has_bits(),
        points_painted(*old(s), *final(s), line_points(x1 as int, y1 as int, x2 as int, y2 as int), color),
{
    if s.bits.is_none() {
        return false;
    }
    let ddx: i64 = (x2 as i64) - (x1 as i64);
    let ddy: i64 = (y2 as i64) - (y1 as i64);
    let dx: i64 = if ddx < 0 { -ddx } else { ddx };
    let dy: i64 = if ddy < 0 { ddy } else { -ddy };
    let sx: i64 = if x1 < x2 { 1 } else { -1 };
    let sy: i64 = if y1 < y2 { 1 } else { -1 };
    let mut err: i64 = dx + dy;
    let mut x: i64 = x1 as i64;
    let mut y: i64 = y1 as i64;
    let ghost before = *s;
    let ghost full = line_points(x1 as int, y1 as int, x2 as int, y2 as int);
    let ghost mut done: Seq<(int, int)> = Seq::empty();
    let ghost (gx1, gy1, gx2, gy2) = (x1 as int, y1 as int, x2 as int, y2 as int);
    assert(full == done + line_from(x as int, y as int, err as int, gx2, gy2, dx as int, dy as int, sx as int, sy as int));
    loop
        invariant_except_break
            full == done + line_from(x as int, y as int, err as int, gx2, gy2, dx as int, dy as int, sx as int, sy as int),
        invariant
            s.wf(),
            s.has_bits(),
            points_painted(before, *s, done, color),
            before.wf(),
            gx1 == x1 && gy1 == y1 && gx2 == x2 && gy2 == y2,
            dx == abs(gx2 - gx1),
            dy == -abs(gy2 - gy1),
            sx == (if gx1 < gx2 { 1int } else { -1int }),
            sy == (if gy1 < gy2 { 1int } else { -1int }),
            between(x as int, gx1, gx2),
            between(y as int, gy1, gy2),
            3 * dy <= 2 * err <= 3 * dx,
            full == line_points(gx1, gy1, gx2, gy2),
        ensures
            points_painted(before, *s, full, color),
        decreases abs(gx2 - x) + abs(gy2 - y),
    {
        let ghost cur = line_from(x as int, y as int, err as int, gx2, gy2, dx as int, dy as int, sx as int, sy as int);
        let ghost done0 = done;
        let ghost s0 = *s;
        let _ = s.set_pixel(x as i32, y as i32, color);
        proof {
            done = done.push((x as int, y as int));
            assert forall|px: int, py: int| #[trigger] s.in_bounds(px, py) && s.has_bits() implies
                s.px(px, py) == if done.contains((px, py)) { color } else { before.px(px, py) } by {
                assert(s0.in_bounds(px, py));
                assert((x as i32) as int == x && (y as i32) as int == y);
                if px == x && py == y {
                    assert(done[done.len() - 1] == (px, py));
                } else {
                    assert(done0.contains((px, py)) == done.contains((px, py))) by {
                        if done.contains((px, py)) {
                            let k = choose|k: int| 0 <= k < done.len() && done[k] == (px, py);
                            assert(k < done0.len());
                            assert(done0[k] == (px, py));
                        }
                        if done0.contains((px, py)) {
                            let k = choose|k: int| 0 <= k < done0.len() && done0[k] == (px, py);
                            assert(done[k] == (px, py));
                        }
                    }
                }
            }
        }
        if x == x2 as i64 && y == y2 as i64 {
            proof {
                assert(cur == seq![(x as int, y as int)]);
                assert(full =~= done);
            }
            break;
        }
        let e2 = 2 * err;
        if e2 >= dy {
            if x == x2 as i64 {
                proof {
                    assert(full =~= done);
                }
                break;
            }
            err = err + dy;
            x = x + sx;
        }
        if e2 <= dx {
            if y == y2 as i64 {
                proof {
                    assert(full =~= done);
                }
                break;
            }
            err = err + dx;
            y = y + sy;
        }
        proof {
            assert(cur == seq![(done.last().0, done.last().1)] + line_from(x as int, y as int, err as int, gx2, gy2, dx as int, dy as int, sx as int, sy as int));
            assert(full =~= done + line_from(x as int, y as int, err as int, gx2, gy2, dx as int, dy as int, sx as int, sy as int));
        }
    }
    true
}


/// Painting two sets of pixels the same colour, one after the other, is
/// painting their union.
pub proof fn lemma_paint_compose(
    s0: GdiSurface,
    s1: GdiSurface,
    s2: GdiSurface,
    h1: spec_fn(int, int) -> bool,
    h2: spec_fn(int, int) -> bool,
    color: u32,
)
    requires
        pixels_mapped(s0, s1, h1, |v: u32| color),
        pixels_mapped(s1, s2, h2, |v: u32| color),
    ensures
        pixels_mapped(s0, s2, |px: int, py: int| h1(px, py) || h2(px, py), |v: u32| color),
{
    assert forall|px: int, py: int| #[trigger] s2.in_bounds(px, py) && s2.has_bits() implies
        s2.px(px, py) == if h1(px, py) || h2(px, py) { color } else { s0.px(px, py) } by {
        assert(s1.in_bounds(px, py));
    }
}

/// Painting a run of points one colour maps exactly the pixels on it to
/// that colour.
pub proof fn lemma_points_painted_is_mapped(before: GdiSurface, after: GdiSurface, pts: Seq<(int, int)>, color: u32)
    requires
        points_painted(before, after, pts, color),
    ensures
        pixels_mapped(before, after, |px: int, py: int| pts.contains((px, py)), |v: u32| color),
{
}

// =============================================================================
// Drawing through a DC
// =============================================================================

/// The address of the surface a DC draws on: its own, or the primary one.
pub open spec fn dc_surface_addr(dc: &DcObject, primary: u64) -> u64 {
    if dc.surface != 0 { dc.surface } else { primary }
}

/// Get DC's surface address.
pub fn get_dc_surface(dc: &DcObject, surfaces: &SurfaceTable) -> (r: u64)
    ensures
        r == dc_surface_addr(dc, surfaces.primary),
{
    if dc.surface != 0 {
        dc.surface
    } else {
        surfaces.primary
    }
}

/// `after` is `before` with only the surface at `a` changed, from `s` to a
/// surface `rel(s, _)` relates it to; with no surface at `a` nothing
/// changes.
pub open spec fn surface_changed(before: &SurfaceTable, after: &SurfaceTable, a: u64, rel: spec_fn(GdiSurface, GdiSurface) -> bool) -> bool {
    &&& after.primary == before.primary
    &&& after.wf()
    &&& match before.at(a) {
        Some(s) => {
            &&& after.at(a) is Some
            &&& after.slots@ =~= before.slots@.update(a - 1, after.at(a))
            &&& rel(s, after.at(a).unwrap())
        },
        None => after.slots@ == before.slots@,
    }
}

/// GreGetPixel: the pixel at `(x, y)` of the DC's surface, or `0xFFFFFFFF`
/// when there is no surface, no storage, or the point is off the surface.
#[allow(non_snake_case)]
pub fn GreGetPixel(surfaces: &SurfaceTable, dc: &DcObject, x: i32, y: i32) -> (r: u32)
    requires
        surfaces.wf(),
    ensures
        r == match surfaces.at(dc_surface_addr(dc, surfaces.primary)) {
            Some(s) => match crate::win32k::surface::pixel_read(s, x as int, y as int) {
                Some(v) => v,
                None => 0xFFFFFFFF,
            },
            None => 0xFFFFFFFF,
        },
{
    let a = get_dc_surface(dc, surfaces);
    match surfaces.get(a) {
        Some(s) => {
            if x < 0 || x >= s.width || y < 0 || y >= s.height {
                return 0xFFFFFFFF;
            }
            match &s.bits {
                Some(rows) => {
                    if (y as usize) < rows.len() && (x as usize) < rows[y as usize].len() {
                        rows[y as usize][x as usize]
                    } else {
                        0xFFFFFFFF
                    }
                },
                None => 0xFFFFFFFF,
            }
        },
        None => 0xFFFFFFFF,
    }
}

/// GreSetPixel: write `color` at `(x, y)` of the DC's surface; false when
/// there is no surface, no storage, or the point is off the surface.
#[allow(non_snake_case)]
pub fn GreSetPixel(surfaces: &mut SurfaceTable, dc: &DcObject, x: i32, y: i32, color: u32) -> (r: bool)
    requires
        old(surfaces).wf(),
    ensures
        surface_changed(old(surfaces), final(surfaces), dc_surface_addr(dc, old(surfaces).primary),
            |s: GdiSurface, s2: GdiSurface| crate::win32k::surface::pixel_written(s, s2, x, y, color)),
        r == match old(surfaces).at(dc_surface_addr(dc, old(surfaces).primary)) {
            Some(s) => s.in_bounds(x as int, y as int) && s.has_bits(),
            None => false,
        },
{
    let a = get_dc_surface(dc, surfaces);
    match surfaces.take(a) {
        Some(mut s) => {
            let ok = s.set_pixel(x, y, color);
            surfaces.put(a, s);
            ok
        },
        None => false,
    }
}

/// The colour of the DC's brush (0 with no brush).
pub open spec fn dc_brush_color(gdi: &GdiState, dc: &DcObject) -> u32 {
    if dc.brush != 0 { brush_color_spec(gdi, dc.brush) } else { 0 }
}

/// The colour of the DC's pen (0 with no pen).
pub open spec fn dc_pen_color(gdi: &GdiState, dc: &DcObject) -> u32 {
    if dc.pen != 0 { pen_color_spec(gdi, dc.pen) } else { 0 }
}

pub fn dc_brush_color_exec(gdi: &GdiState, dc: &DcObject) -> (r: u32)
    ensures
        r == dc_brush_color(gdi, dc),
{
    if dc.brush != 0 { GdiGetBrushColor(gdi, dc.brush) } else { 0 }
}

pub fn dc_pen_color_exec(gdi: &GdiState, dc: &DcObject) -> (r: u32)
    ensures
        r == dc_pen_color(gdi, dc),
{
    if dc.pen != 0 { GdiGetPenColor(gdi, dc.pen) } else { 0 }
}

/// The colour PatBlt fills with, by the ROP's operation index (bits
/// 16..24): black for 0x00 (BLACKNESS), white for 0xFF (WHITENESS), the
/// brush colour otherwise.
pub open spec fn patblt_color(rop: u32, brush: u32) -> u32 {
    if (rop >> 16u32) & 0xFF == 0 { 0 } else if (rop >> 16u32) & 0xFF == 0xFF { 0x00FFFFFF } else { brush }
}

/// PatBlt: fill a rectangle of the DC's surface with black, white or the
/// brush colour, chosen by the ROP's operation index; false with no surface or
/// no storage.
#[allow(non_snake_case)]
pub fn GrePatBlt(surfaces: &mut SurfaceTable, gdi: &GdiState, dc: &DcObject, left: i32, top: i32, width: i32, height: i32, rop: u32) -> (r: bool)
    requires
        old(surfaces).wf(),
    ensures
        surface_changed(old(surfaces), final(surfaces), dc_surface_addr(dc, old(surfaces).primary),
            |s: GdiSurface, s2: GdiSurface| pixels_mapped(s, s2,
                |px: int, py: int| is_32bpp(s.format) && in_clipped_rect(left as int, top as int, width as int, height as int,
                    s.width as int, s.height as int, px, py),
                |v: u32| patblt_color(rop, dc_brush_color(gdi, dc)))),
        r == match old(surfaces).at(dc_surface_addr(dc, old(surfaces).primary)) {
            Some(s) => s.has_bits(),
            None => false,
        },
{
    let a = get_dc_surface(dc, surfaces);
    let brush = dc_brush_color_exec(gdi, dc);
    let index = (rop >> 16u32) & 0xFF;
    let color = if index == 0 { 0 } else if index == 0xFF { 0x00FFFFFF } else { brush };
    match surfaces.take(a) {
        Some(mut s) => {
            let ok = fill_rect_solid(&mut s, left, top, width, height, color);
            surfaces.put(a, s);
            ok
        },
        None => false,
    }
}

/// The coordinate arguments of a rectangle call stay within 32 bits in
/// every step of the drawing (`right - 1`, `left + 1`, the width less
/// one, and so on).
pub open spec fn rect_args_ok(left: i32, top: i32, right: i32, bottom: i32) -> bool {
    &&& i32::MIN < left < i32::MAX && i32::MIN < top < i32::MAX
    &&& i32::MIN < right < i32::MAX && i32::MIN < bottom < i32::MAX
    &&& i32::MIN < right - left <= i32::MAX && i32::MIN < bottom - top <= i32::MAX
}

/// The outline `GreRectangle` draws: four lines along the edges, the right
/// and bottom edges one pixel in.
pub open spec fn rect_outline(left: int, top: int, right: int, bottom: int, px: int, py: int) -> bool {
    ||| line_points(left, top, right - 1, top).contains((px, py))
    ||| line_points(left, bottom - 1, right - 1, bottom - 1).contains((px, py))
    ||| line_points(left, top, left, bottom - 1).contains((px, py))
    ||| line_points(right - 1, top, right - 1, bottom - 1).contains((px, py))
}

/// The pixels of a rectangle drawn with a pen colour and, when
/// `brush_on`, filled inside with a brush colour.
pub open spec fn rectangle_drawn(s: GdiSurface, s2: GdiSurface, left: int, top: int, right: int, bottom: int,
    pen: u32, brush_on: bool, brush: u32) -> bool {
    &&& s.same_but_pixels(&s2)
    &&& forall|px: int, py: int| #[trigger] s2.in_bounds(px, py) && s2.has_bits() ==>
        s2.px(px, py) == if brush_on && is_32bpp(s.format)
            && in_clipped_rect(left + 1, top + 1, right - left - 1, bottom - top - 1, s.width as int, s.height as int, px, py) {
            brush
        } else if rect_outline(left, top, right, bottom, px, py) {
            pen
        } else {
            s.px(px, py)
        }
}

fn draw_rectangle(s: &mut GdiSurface, left: i32, top: i32, right: i32, bottom: i32, pen: u32, brush_on: bool, brush: u32)
    requires
        old(s).wf(),
        old(s).has_bits(),
        rect_args_ok(left, top, right, bottom),
    ensures
        rectangle_drawn(*old(s), *final(s), left as int, top as int, right as int, bottom as int, pen, brush_on, brush),
{
    let ghost s0 = *s;
    draw_line(s, left, top, right - 1, top, pen);
    let ghost s1 = *s;
    draw_line(s, left, bottom - 1, right - 1, bottom - 1, pen);
    let ghost s2 = *s;
    draw_line(s, left, top, left, bottom - 1, pen);
    let ghost s3 = *s;
    draw_line(s, right - 1, top, right - 1, bottom - 1, pen);
    let ghost s4 = *s;
    let width = right - left;
    let height = bottom - top;
    if brush_on {
        fill_rect_solid(s, left + 1, top + 1, width - 1, height - 1, brush);
    }
    proof {
        let (l, t, r, b) = (left as int, top as int, right as int, bottom as int);
        assert forall|px: int, py: int| #[trigger] s.in_bounds(px, py) && s.has_bits() implies
            s.px(px, py) == if brush_on && is_32bpp(s0.format)
                && in_clipped_rect(l + 1, t + 1, r - l - 1, b - t - 1, s0.width as int, s0.height as int, px, py) {
                brush
            } else if rect_outline(l, t, r, b, px, py) {
                pen
            } else {
                s0.px(px, py)
            } by {
            assert(s4.in_bounds(px, py));
            assert(s3.in_bounds(px, py));
            assert(s2.in_bounds(px, py));
            assert(s1.in_bounds(px, py));
            assert(s0.in_bounds(px, py));
        }
    }
}

/// GreRectangle: draw the outline with the pen colour and, when a brush is
/// selected, fill the inside with the brush colour. False with no surface
/// (a surface without storage gives true and is left as it is).
#[allow(non_snake_case)]
pub fn GreRectangle(surfaces: &mut SurfaceTable, gdi: &GdiState, dc: &DcObject, left: i32, top: i32, right: i32, bottom: i32) -> (r: bool)
    requires
        old(surfaces).wf(),
        rect_args_ok(left, top, right, bottom),
    ensures
        surface_changed(old(surfaces), final(surfaces), dc_surface_addr(dc, old(surfaces).primary),
            |s: GdiSurface, s2: GdiSurface| if s.has_bits() {
                rectangle_drawn(s, s2, left as int, top as int, right as int, bottom as int,
                    dc_pen_color(gdi, dc), dc.brush != 0, dc_brush_color(gdi, dc))
            } else {
                s2 == s
            }),
        r == old(surfaces).at(dc_surface_addr(dc, old(surfaces).primary)) is Some,
{
    let a = get_dc_surface(dc, surfaces);
    let pen = dc_pen_color_exec(gdi, dc);
    let brush = dc_brush_color_exec(gdi, dc);
    match surfaces.take(a) {
        Some(mut s) => {
            if s.bits.is_some() {
                draw_rectangle(&mut s, left, top, right, bottom, pen, dc.brush != 0, brush);
            }
            surfaces.put(a, s);
            true
        },
        None => false,
    }
}

/// GreRoundRect: drawn as a plain rectangle (the corner sizes are not
/// used).
#[allow(non_snake_case)]
pub fn GreRoundRect(surfaces: &mut SurfaceTable, gdi: &GdiState, dc: &DcObject, left: i32, top: i32, right: i32, bottom: i32,
    width: i32, height: i32) -> (r: bool)
    requires
        old(surfaces).wf(),
        rect_args_ok(left, top, right, bottom),
    ensures
        surface_changed(old(surfaces), final(surfaces), dc_surface_addr(dc, old(surfaces).primary),
            |s: GdiSurface, s2: GdiSurface| if s.has_bits() {
                rectangle_drawn(s, s2, left as int, top as int, right as int, bottom as int,
                    dc_pen_color(gdi, dc), dc.brush != 0, dc_brush_color(gdi, dc))
            } else {
                s2 == s
            }),
        r == old(surfaces).at(dc_surface_addr(dc, old(surfaces).primary)) is Some,
{
    GreRectangle(surfaces, gdi, dc, left, top, right, bottom)
}

/// The pixels on the segments between consecutive points of `pts`, the
/// first `k` segments.
pub open spec fn on_polyline(pts: Seq<(i32, i32)>, k: int, px: int, py: int) -> bool {
    exists|i: int| 0 <= i < k && i + 1 < pts.len()
        && #[trigger] line_points(pts[i].0 as int, pts[i].1 as int, pts[i + 1].0 as int, pts[i + 1].1 as int).contains((px, py))
}

/// GrePolyline: draw the segments between consecutive points with the pen
/// colour. False with fewer than two points or no surface.
#[allow(non_snake_case)]
pub fn GrePolyline(surfaces: &mut SurfaceTable, gdi: &GdiState, dc: &DcObject, points: &[(i32, i32)]) -> (r: bool)
    requires
        old(surfaces).wf(),
    ensures
        points@.len() < 2 ==> !r && final(surfaces).slots@ == old(surfaces).slots@
            && final(surfaces).primary == old(surfaces).primary,
        points@.len() >= 2 ==> {
            &&& surface_changed(old(surfaces), final(surfaces), dc_surface_addr(dc, old(surfaces).primary),
                |s: GdiSurface, s2: GdiSurface| if s.has_bits() {
                    pixels_mapped(s, s2, |px: int, py: int| on_polyline(points@, points@.len() - 1, px, py),
                        |v: u32| dc_pen_color(gdi, dc))
                } else {
                    s2 == s
                })
            &&& r == old(surfaces).at(dc_surface_addr(dc, old(surfaces).primary)) is Some
        },
{
    if points.len() < 2 {
        return false;
    }
    let a = get_dc_surface(dc, surfaces);
    let pen = dc_pen_color_exec(gdi, dc);
    match surfaces.take(a) {
        Some(mut s) => {
            if s.bits.is_some() {
                let ghost s0 = s;
                let n = points.len();
                let mut i: usize = 0;
                while i + 1 < n
                    invariant
                        n == points@.len(),
                        n >= 2,
                        i + 1 <= n,
                        s0.wf(),
                        s.wf(),
                        s.has_bits(),
                        pixels_mapped(s0, s, |px: int, py: int| on_polyline(points@, i as int, px, py), |v: u32| pen),
                    decreases n - i,
                {
                    let ghost si = s;
                    let (ax, ay) = points[i];
                    let (bx, by) = points[i + 1];
                    draw_line(&mut s, ax, ay, bx, by, pen);
                    proof {
                        assert forall|px: int, py: int| #[trigger] s.in_bounds(px, py) && s.has_bits() implies
                            s.px(px, py) == if on_polyline(points@, i + 1, px, py) { pen } else { s0.px(px, py) } by {
                            assert(si.in_bounds(px, py));
                            assert(s0.in_bounds(px, py));
                            let seg = line_points(points@[i as int].0 as int, points@[i as int].1 as int,
                                points@[i + 1].0 as int, points@[i + 1].1 as int);
                            if on_polyline(points@, i + 1, px, py) && !seg.contains((px, py)) {
                                let j = choose|j: int| 0 <= j < i + 1 && j + 1 < points@.len()
                                    && #[trigger] line_points(points@[j].0 as int, points@[j].1 as int, points@[j + 1].0 as int,
                                    points@[j + 1].1 as int).contains((px, py));
                                assert(j < i);
                            }
                            if on_polyline(points@, i as int, px, py) {
                                let j = choose|j: int| 0 <= j < i && j + 1 < points@.len()
                                    && #[trigger] line_points(points@[j].0 as int, points@[j].1 as int, points@[j + 1].0 as int,
                                    points@[j + 1].1 as int).contains((px, py));
                                assert(on_polyline(points@, i + 1, px, py));
                            }
                            if seg.contains((px, py)) {
                                assert(on_polyline(points@, i + 1, px, py));
                            }
                        }
                    }
                    i = i + 1;
                }
            }
            surfaces.put(a, s);
            true
        },
        None => false,
    }
}

/// The width of the DC's pen: 1 with no pen selected.
pub open spec fn dc_pen_width(gdi: &GdiState, dc: &DcObject) -> i32 {
    if dc.pen != 0 { pen_width_spec(gdi, dc.pen) } else { 1 }
}

/// LineTo with a pen at most one pixel wide: the line from the origin (the
/// current position is not tracked) to `(end_x, end_y)` in the pen colour,
/// and `Some` of whether the DC has a surface. `None`, with nothing drawn,
/// for a wider pen, whose line the caller draws in floating point.
pub fn line_to_thin(surfaces: &mut SurfaceTable, gdi: &GdiState, dc: &DcObject, end_x: i32, end_y: i32) -> (r: Option<bool>)
    requires
        old(surfaces).wf(),
    ensures
        dc_pen_width(gdi, dc) > 1 ==> r is None && final(surfaces).slots@ == old(surfaces).slots@
            && final(surfaces).primary == old(surfaces).primary,
        dc_pen_width(gdi, dc) <= 1 ==> {
            &&& r == Some(old(surfaces).at(dc_surface_addr(dc, old(surfaces).primary)) is Some)
            &&& surface_changed(old(surfaces), final(surfaces), dc_surface_addr(dc, old(surfaces).primary),
                |s: GdiSurface, s2: GdiSurface| points_painted(s, s2, line_points(0, 0, end_x as int, end_y as int),
                    dc_pen_color(gdi, dc)))
        },
{
    let width = if dc.pen != 0 { GdiGetPenWidth(gdi, dc.pen) } else { 1 };
    if width > 1 {
        return None;
    }
    let a = get_dc_surface(dc, surfaces);
    let pen = dc_pen_color_exec(gdi, dc);
    match surfaces.take(a) {
        Some(mut s) => {
            draw_line(&mut s, 0, 0, end_x, end_y, pen);
            surfaces.put(a, s);
            Some(true)
        },
        None => Some(false),
    }
}

/// The pixels on the first `k` edges of the closed polygon `pts`, edge
/// `i` running from point `i` to the next (the last back to the first).
pub open spec fn on_polygon(pts: Seq<(i32, i32)>, k: int, px: int, py: int) -> bool {
    exists|i: int| 0 <= i < k && i < pts.len()
        && #[trigger] line_points(pts[i].0 as int, pts[i].1 as int, pts[(i + 1) % (pts.len() as int)].0 as int,
            pts[(i + 1) % (pts.len() as int)].1 as int).contains((px, py))
}

/// The outline `GrePolygon` draws: every edge of the closed polygon with
/// the pen colour. False with fewer than three points or no surface.
pub fn polygon_outline(surfaces: &mut SurfaceTable, gdi: &GdiState, dc: &DcObject, points: &[(i32, i32)]) -> (r: bool)
    requires
        old(surfaces).wf(),
    ensures
        points@.len() < 3 ==> !r && final(surfaces).slots@ == old(surfaces).slots@
            && final(surfaces).primary == old(surfaces).primary,
        points@.len() >= 3 ==> {
            &&& surface_changed(old(surfaces), final(surfaces), dc_surface_addr(dc, old(surfaces).primary),
                |s: GdiSurface, s2: GdiSurface| if s.has_bits() {
                    pixels_mapped(s, s2, |px: int, py: int| on_polygon(points@, points@.len() as int, px, py),
                        |v: u32| dc_pen_color(gdi, dc))
                } else {
                    s2 == s
                })
            &&& r == old(surfaces).at(dc_surface_addr(dc, old(surfaces).primary)) is Some
        },
{
    if points.len() < 3 {
        return false;
    }
    let a = get_dc_surface(dc, surfaces);
    let pen = dc_pen_color_exec(gdi, dc);
    match surfaces.take(a) {
        Some(mut s) => {
            if s.bits.is_some() {
                let ghost s0 = s;
                let n = points.len();
                let mut i: usize = 0;
                while i < n
                    invariant
                        n == points@.len(),
                        n >= 3,
                        i <= n,
                        s0.wf(),
                        s.wf(),
                        s.has_bits(),
                        pixels_mapped(s0, s, |px: int, py: int| on_polygon(points@, i as int, px, py), |v: u32| pen),
                    decreases n - i,
                {
                    let ghost si = s;
                    let j: usize = if i + 1 < n { i + 1 } else { 0 };
                    proof {
                        if i + 1 < n {
                            vstd::arithmetic::div_mod::lemma_small_mod((i + 1) as nat, n as nat);
                        } else {
                            vstd::arithmetic::div_mod::lemma_mod_self_0(n as int);
                        }
                    }
                    assert(j == (i + 1) % (n as int));
                    let (ax, ay) = points[i];
                    let (bx, by) = points[j];
                    draw_line(&mut s, ax, ay, bx, by, pen);
                    proof {
                        assert forall|px: int, py: int| #[trigger] s.in_bounds(px, py) && s.has_bits() implies
                            s.px(px, py) == if on_polygon(points@, i + 1, px, py) { pen } else { s0.px(px, py) } by {
                            assert(si.in_bounds(px, py));
                            assert(s0.in_bounds(px, py));
                            let seg = line_points(points@[i as int].0 as int, points@[i as int].1 as int,
                                points@[(i + 1) % (n as int)].0 as int, points@[(i + 1) % (n as int)].1 as int);
                            if on_polygon(points@, i + 1, px, py) && !seg.contains((px, py)) {
                                let k = choose|k: int| 0 <= k < i + 1 && k < points@.len()
                                    && #[trigger] line_points(points@[k].0 as int, points@[k].1 as int,
                                    points@[(k + 1) % (points@.len() as int)].0 as int, points@[(k + 1) % (points@.len() as int)].1 as int).contains((px, py));
                                assert(k < i);
                            }
                            if on_polygon(points@, i as int, px, py) {
                                let k = choose|k: int| 0 <= k < i && k < points@.len()
                                    && #[trigger] line_points(points@[k].0 as int, points@[k].1 as int,
                                    points@[(k + 1) % (points@.len() as int)].0 as int, points@[(k + 1) % (points@.len() as int)].1 as int).contains((px, py));
                                assert(on_polygon(points@, i + 1, px, py));
                            }
                            if seg.contains((px, py)) {
                                assert(on_polygon(points@, i + 1, px, py));
                            }
                        }
                    }
                    i = i + 1;
                }
            }
            surfaces.put(a, s);
            true
        },
        None => false,
    }
}

/// GreMoveTo: the current position is not tracked; nothing changes.
#[allow(non_snake_case)]
pub fn GreMoveTo(dc: &mut DcObject, x: i32, y: i32)
    ensures
        *final(dc) == *old(dc),
{
}


// =============================================================================
// Block transfers
// =============================================================================

/// `after` is `before` with each pixel of the `aw` x `ah` block at
/// `(dst_x, dst_y)` combined by `rop` with the pixel at the same offset
/// from `(src_x, src_y)` in `src`; pixels whose source or destination is
/// off its surface are left alone.
pub open spec fn blitted(before: GdiSurface, after: GdiSurface, src: GdiSurface, dst_x: int, dst_y: int, aw: int, ah: int,
    src_x: int, src_y: int, rop: u32) -> bool {
    &&& before.same_but_pixels(&after)
    &&& forall|px: int, py: int| #[trigger] after.in_bounds(px, py) && after.has_bits() ==>
        after.px(px, py) == if dst_x <= px < dst_x + aw && dst_y <= py < dst_y + ah
            && crate::win32k::surface::pixel_read(src, px - dst_x + src_x, py - dst_y + src_y) is Some {
            rop_spec(before.px(px, py), crate::win32k::surface::pixel_read(src, px - dst_x + src_x, py - dst_y + src_y).unwrap(), 0, rop)
        } else {
            before.px(px, py)
        }
}

/// Read the `aw` x `ah` block of `s` at `(x, y)`; off-surface pixels read
/// as `None`.
fn read_block(s: &GdiSurface, x: i64, y: i64, aw: i64, ah: i64) -> (r: Vec<Vec<Option<u32>>>)
    requires
        s.wf(),
        0 <= aw <= 0x1_0000_0000,
        0 <= ah <= 0x1_0000_0000,
        -0x1_0000_0000 <= x <= 0x1_0000_0000,
        -0x1_0000_0000 <= y <= 0x1_0000_0000,
    ensures
        r@.len() == ah,
        forall|j: int| 0 <= j < ah ==> (#[trigger] r@[j])@.len() == aw,
        forall|i: int, j: int| #![trigger r@[j]@[i]] 0 <= i < aw && 0 <= j < ah ==>
            r@[j]@[i] == crate::win32k::surface::pixel_read(*s, x + i, y + j),
{
    let mut out: Vec<Vec<Option<u32>>> = Vec::new();
    let mut j: i64 = 0;
    while j < ah
        invariant
            0 <= j <= ah,
            s.wf(),
            0 <= aw <= 0x1_0000_0000,
            -0x1_0000_0000 <= x <= 0x1_0000_0000,
            -0x1_0000_0000 <= y <= 0x1_0000_0000,
            ah <= 0x1_0000_0000,
            out@.len() == j,
            forall|jj: int| 0 <= jj < j ==> (#[trigger] out@[jj])@.len() == aw,
            forall|i: int, jj: int| #![trigger out@[jj]@[i]] 0 <= i < aw && 0 <= jj < j ==>
                out@[jj]@[i] == crate::win32k::surface::pixel_read(*s, x + i, y + jj),
        decreases ah - j,
    {
        let mut row: Vec<Option<u32>> = Vec::new();
        let mut i: i64 = 0;
        while i < aw
            invariant
                0 <= i <= aw,
                s.wf(),
                aw <= 0x1_0000_0000,
                -0x1_0000_0000 <= x <= 0x1_0000_0000,
                -0x1_0000_0000 <= y <= 0x1_0000_0000,
                0 <= j < ah <= 0x1_0000_0000,
                row@.len() == i,
                forall|ii: int| 0 <= ii < i ==> row@[ii] == crate::win32k::surface::pixel_read(*s, x + ii, y + j),
            decreases aw - i,
        {
            let px = x + i;
            let py = y + j;
            let v = if px >= 0 && px < s.width as i64 && py >= 0 && py < s.height as i64 {
                match &s.bits {
                    Some(rows) => Some(rows[py as usize][px as usize]),
                    None => None,
                }
            } else {
                None
            };
            row.push(v);
            i = i + 1;
        }
        out.push(row);
        j = j + 1;
    }
    out
}

/// Combine a block read by `read_block` into `d` at `(x, y)`.
fn write_block(d: &mut GdiSurface, block: &Vec<Vec<Option<u32>>>, x: i64, y: i64, aw: i64, ah: i64, rop: u32)
    requires
        old(d).wf(),
        old(d).has_bits(),
        block@.len() == ah,
        forall|j: int| 0 <= j < ah ==> (#[trigger] block@[j])@.len() == aw,
        0 <= aw <= 0x1_0000_0000,
        0 <= ah <= 0x1_0000_0000,
        -0x1_0000_0000 <= x <= 0x1_0000_0000,
        -0x1_0000_0000 <= y <= 0x1_0000_0000,
    ensures
        old(d).same_but_pixels(final(d)),
        forall|px: int, py: int| #[trigger] final(d).in_bounds(px, py) ==>
            final(d).px(px, py) == if x <= px < x + aw && y <= py < y + ah && block@[py - y]@[px - x] is Some {
                rop_spec(old(d).px(px, py), block@[py - y]@[px - x].unwrap(), 0, rop)
            } else {
                old(d).px(px, py)
            },
{
    let ghost d0 = *d;
    let mut j: i64 = 0;
    while j < ah
        invariant
            0 <= j <= ah,
            d0.wf(),
            d0.has_bits(),
            d0.same_but_pixels(d),
            block@.len() == ah,
            forall|jj: int| 0 <= jj < ah ==> (#[trigger] block@[jj])@.len() == aw,
            0 <= aw <= 0x1_0000_0000,
            ah <= 0x1_0000_0000,
            -0x1_0000_0000 <= x <= 0x1_0000_0000,
            -0x1_0000_0000 <= y <= 0x1_0000_0000,
            forall|px: int, py: int| #[trigger] d.in_bounds(px, py) ==>
                d.px(px, py) == if x <= px < x + aw && y <= py < y + j && block@[py - y]@[px - x] is Some {
                    rop_spec(d0.px(px, py), block@[py - y]@[px - x].unwrap(), 0, rop)
                } else {
                    d0.px(px, py)
                },
        decreases ah - j,
    {
        let mut i: i64 = 0;
        while i < aw
            invariant
                0 <= i <= aw,
                0 <= j < ah,
                d0.wf(),
                d0.has_bits(),
                d0.same_but_pixels(d),
                block@.len() == ah,
                forall|jj: int| 0 <= jj < ah ==> (#[trigger] block@[jj])@.len() == aw,
                aw <= 0x1_0000_0000,
                ah <= 0x1_0000_0000,
                -0x1_0000_0000 <= x <= 0x1_0000_0000,
                -0x1_0000_0000 <= y <= 0x1_0000_0000,
                forall|px: int, py: int| #[trigger] d.in_bounds(px, py) ==>
                    d.px(px, py) == if x <= px < x + aw && y <= py < y + ah && block@[py - y]@[px - x] is Some
                        && (py < y + j || (py == y + j && px < x + i)) {
                        rop_spec(d0.px(px, py), block@[py - y]@[px - x].unwrap(), 0, rop)
                    } else {
                        d0.px(px, py)
                    },
            decreases aw - i,
        {
            let px = x + i;
            let py = y + j;
            let ghost dprev = *d;
            match block[j as usize][i as usize] {
                Some(v) => {
                    if px >= 0 && px < d.width as i64 && py >= 0 && py < d.height as i64 {
                        let cur = match &d.bits {
                            Some(rows) => rows[py as usize][px as usize],
                            None => 0,
                        };
                        let nv = apply_rop(cur, v, 0, rop);
                        d.set_pixel(px as i32, py as i32, nv);
                        proof {
                            assert forall|qx: int, qy: int| #[trigger] d.in_bounds(qx, qy) implies
                                d.px(qx, qy) == if x <= qx < x + aw && y <= qy < y + ah && block@[qy - y]@[qx - x] is Some
                                    && (qy < y + j || (qy == y + j && qx < x + i + 1)) {
                                    rop_spec(d0.px(qx, qy), block@[qy - y]@[qx - x].unwrap(), 0, rop)
                                } else {
                                    d0.px(qx, qy)
                                } by {
                                assert(dprev.in_bounds(qx, qy));
                            }
                        }
                    } else {
                        proof {
                            assert forall|qx: int, qy: int| #[trigger] d.in_bounds(qx, qy) implies
                                d.px(qx, qy) == if x <= qx < x + aw && y <= qy < y + ah && block@[qy - y]@[qx - x] is Some
                                    && (qy < y + j || (qy == y + j && qx < x + i + 1)) {
                                    rop_spec(d0.px(qx, qy), block@[qy - y]@[qx - x].unwrap(), 0, rop)
                                } else {
                                    d0.px(qx, qy)
                                } by {
                            }
                        }
                    }
                },
                None => {},
            }
            i = i + 1;
        }
        j = j + 1;
    }
}

/// The part of a `w`-wide transfer that fits both surfaces:
/// `min(w, dst_w - dst_x, src_w - src_x)`.
pub open spec fn clip3(w: int, dst_w: int, dst_x: int, src_w: int, src_x: int) -> int {
    min_int(min_int(w, dst_w - dst_x), src_w - src_x)
}

fn clip3_exec(w: i32, dst_w: i32, dst_x: i32, src_w: i32, src_x: i32) -> (r: i64)
    ensures
        r == clip3(w as int, dst_w as int, dst_x as int, src_w as int, src_x as int),
{
    let a = if (w as i64) <= (dst_w as i64) - (dst_x as i64) { w as i64 } else { (dst_w as i64) - (dst_x as i64) };
    if a <= (src_w as i64) - (src_x as i64) { a } else { (src_w as i64) - (src_x as i64) }
}

/// Transfer a block from surface `sa` to surface `da` with `rop`. With
/// `copy`, a start point at or past the far edge of either surface fails.
/// Gives false when a surface is missing or has no storage.
fn blit(surfaces: &mut SurfaceTable, da: u64, dst_x: i32, dst_y: i32, width: i32, height: i32, sa: u64, src_x: i32, src_y: i32,
    rop: u32, copy: bool) -> (r: bool)
    requires
        old(surfaces).wf(),
        old(surfaces).at(da) is Some,
        old(surfaces).at(sa) is Some,
    ensures
        ({
            let d = old(surfaces).at(da).unwrap();
            let s = old(surfaces).at(sa).unwrap();
            let aw = clip3(width as int, d.width as int, dst_x as int, s.width as int, src_x as int);
            let ah = clip3(height as int, d.height as int, dst_y as int, s.height as int, src_y as int);
            let refused = !d.has_bits() || !s.has_bits() || (copy && (dst_x >= d.width || dst_y >= d.height
                || src_x >= s.width || src_y >= s.height));
            &&& r == !refused
            &&& surface_changed(old(surfaces), final(surfaces), da, |d0: GdiSurface, d2: GdiSurface|
                if refused || aw <= 0 || ah <= 0 { d2 == d0 } else {
                    blitted(d0, d2, s, dst_x as int, dst_y as int, aw, ah, src_x as int, src_y as int, rop)
                })
        }),
{
    let (sw, sh, s_has) = match surfaces.get(sa) {
        Some(s) => (s.width, s.height, s.bits.is_some()),
        None => (0, 0, false),
    };
    let (dw, dh, d_has) = match surfaces.get(da) {
        Some(d) => (d.width, d.height, d.bits.is_some()),
        None => (0, 0, false),
    };
    if !d_has || !s_has {
        return false;
    }
    if copy && (dst_x >= dw || dst_y >= dh || src_x >= sw || src_y >= sh) {
        return false;
    }
    let aw = clip3_exec(width, dw, dst_x, sw, src_x);
    let ah = clip3_exec(height, dh, dst_y, sh, src_y);
    if aw <= 0 || ah <= 0 {
        return true;
    }
    let block = match surfaces.get(sa) {
        Some(s) => read_block(s, src_x as i64, src_y as i64, aw, ah),
        None => Vec::new(),
    };
    let ghost src = old(surfaces).at(sa).unwrap();
    match surfaces.take(da) {
        Some(mut d) => {
            let ghost d0 = d;
            write_block(&mut d, &block, dst_x as i64, dst_y as i64, aw, ah, rop);
            proof {
                assert forall|px: int, py: int| #[trigger] d.in_bounds(px, py) && d.has_bits() implies
                    d.px(px, py) == if dst_x <= px < dst_x + aw && dst_y <= py < dst_y + ah
                        && crate::win32k::surface::pixel_read(src, px - dst_x + src_x, py - dst_y + src_y) is Some {
                        rop_spec(d0.px(px, py), crate::win32k::surface::pixel_read(src, px - dst_x + src_x, py - dst_y + src_y).unwrap(), 0, rop)
                    } else {
                        d0.px(px, py)
                    } by {
                    if dst_x <= px < dst_x + aw && dst_y <= py < dst_y + ah {
                        assert(block@[py - dst_y]@[px - dst_x] == crate::win32k::surface::pixel_read(src, src_x + (px - dst_x), src_y + (py - dst_y)));
                    }
                }
            }
            surfaces.put(da, d);
            true
        },
        None => false,
    }
}

/// The DC's surface, when the DC is given.
pub open spec fn opt_dc_surface(src_dc: Option<&DcObject>, primary: u64) -> Option<u64> {
    match src_dc {
        Some(d) => Some(dc_surface_addr(d, primary)),
        None => None,
    }
}

/// BitBlt - block transfer.
///
/// An empty block succeeds without drawing. SRCCOPY copies from the source
/// DC (and fails without one); BLACKNESS, WHITENESS and PATCOPY fill with
/// black, white and the brush colour; DSTINVERT inverts; any other ROP
/// combines source and destination pixel by pixel. The source block is
/// read before anything is written.
#[allow(non_snake_case)]
pub fn GreBitBlt(
    surfaces: &mut SurfaceTable,
    gdi: &GdiState,
    dst_dc: &DcObject,
    dst_x: i32,
    dst_y: i32,
    width: i32,
    height: i32,
    src_dc: Option<&DcObject>,
    src_x: i32,
    src_y: i32,
    rop: u32,
) -> (r: bool)
    requires
        old(surfaces).wf(),
    ensures
        final(surfaces).wf(),
        final(surfaces).primary == old(surfaces).primary,
        ({
            let da = dc_surface_addr(dst_dc, old(surfaces).primary);
            let sa = opt_dc_surface(src_dc, old(surfaces).primary);
            let fill = |c: u32| |d0: GdiSurface, d2: GdiSurface| pixels_mapped(d0, d2,
                |px: int, py: int| is_32bpp(d0.format) && in_clipped_rect(dst_x as int, dst_y as int, width as int,
                    height as int, d0.width as int, d0.height as int, px, py),
                |v: u32| c);
            if width == 0 || height == 0 {
                r && final(surfaces).slots@ == old(surfaces).slots@
            } else if old(surfaces).at(da) is None {
                !r && final(surfaces).slots@ == old(surfaces).slots@
            } else if rop == BLACKNESS || rop == WHITENESS || rop == PATCOPY || rop == DSTINVERT {
                let c = if rop == BLACKNESS { 0u32 } else if rop == WHITENESS { 0x00FFFFFFu32 } else { dc_brush_color(gdi, dst_dc) };
                &&& r == old(surfaces).at(da).unwrap().has_bits()
                &&& if rop == DSTINVERT {
                    surface_changed(old(surfaces), final(surfaces), da, |d0: GdiSurface, d2: GdiSurface| pixels_mapped(d0, d2,
                        |px: int, py: int| is_32bpp(d0.format) && in_clipped_rect(dst_x as int, dst_y as int, width as int,
                            height as int, d0.width as int, d0.height as int, px, py),
                        |v: u32| !v))
                } else {
                    surface_changed(old(surfaces), final(surfaces), da, fill(c))
                }
            } else if sa is None || old(surfaces).at(sa.unwrap()) is None {
                !r && final(surfaces).slots@ == old(surfaces).slots@
            } else {
                let d = old(surfaces).at(da).unwrap();
                let s = old(surfaces).at(sa.unwrap()).unwrap();
                let copy = rop == SRCCOPY;
                let aw = clip3(width as int, d.width as int, dst_x as int, s.width as int, src_x as int);
                let ah = clip3(height as int, d.height as int, dst_y as int, s.height as int, src_y as int);
                let refused = !d.has_bits() || !s.has_bits() || (copy && (dst_x >= d.width || dst_y >= d.height
                    || src_x >= s.width || src_y >= s.height));
                &&& r == !refused
                &&& surface_changed(old(surfaces), final(surfaces), da, |d0: GdiSurface, d2: GdiSurface|
                    if refused || aw <= 0 || ah <= 0 { d2 == d0 } else {
                        blitted(d0, d2, s, dst_x as int, dst_y as int, aw, ah, src_x as int, src_y as int, rop)
                    })
            }
        }),
{
    if width == 0 || height == 0 {
        return true;
    }
    let da = get_dc_surface(dst_dc, surfaces);
    if surfaces.get(da).is_none() {
        return false;
    }
    if rop == BLACKNESS || rop == WHITENESS || rop == PATCOPY || rop == DSTINVERT {
        let c = if rop == BLACKNESS { 0 } else if rop == WHITENESS { 0x00FFFFFF } else { dc_brush_color_exec(gdi, dst_dc) };
        match surfaces.take(da) {
            Some(mut d) => {
                let ok = if rop == DSTINVERT {
                    invert_rect(&mut d, dst_x, dst_y, width, height)
                } else {
                    fill_rect_solid(&mut d, dst_x, dst_y, width, height, c)
                };
                surfaces.put(da, d);
                return ok;
            },
            None => {
                return false;
            },
        }
    }
    let sa = match src_dc {
        Some(sdc) => get_dc_surface(sdc, surfaces),
        None => {
            return false;
        },
    };
    if surfaces.get(sa).is_none() {
        return false;
    }
    blit(surfaces, da, dst_x, dst_y, width, height, sa, src_x, src_y, rop, rop == SRCCOPY)
}

// =============================================================================
// Engine calls on surfaces by address
// =============================================================================

/// There is a surface at `a`, and it has storage.
pub open spec fn stored_at(surfaces: &SurfaceTable, a: u64) -> bool {
    match surfaces.at(a) {
        Some(s) => s.has_bits(),
        None => false,
    }
}

/// The `w` x `h` block at `(x, y)` lies on surface `s`.
pub open spec fn block_on(s: GdiSurface, x: int, y: int, w: int, h: int) -> bool {
    0 <= x && x + w <= s.width && 0 <= y && y + h <= s.height
}

/// What `EngCopyBits` needs: a block that it copies (one with rows and
/// columns, between surfaces with storage) lies on both surfaces, and a
/// block with rows has no negative width (the engine copies a row
/// without bounds checks).
pub open spec fn eng_copy_ok(surfaces: &SurfaceTable, dst: u64, src: u64, dst_x: i32, dst_y: i32, src_x: i32, src_y: i32,
    width: i32, height: i32) -> bool {
    match (surfaces.at(dst), surfaces.at(src)) {
        (Some(d), Some(s)) => d.has_bits() && s.has_bits() && height > 0 ==> {
            &&& width >= 0
            &&& width > 0 ==> block_on(d, dst_x as int, dst_y as int, width as int, height as int)
                && block_on(s, src_x as int, src_y as int, width as int, height as int)
        },
        _ => true,
    }
}

/// `after` is `before` with the `w` x `h` block at `(dst_x, dst_y)` set to
/// the pixels of the block at `(src_x, src_y)` of `src`.
pub open spec fn block_copied(before: GdiSurface, after: GdiSurface, src: GdiSurface, dst_x: int, dst_y: int, w: int, h: int,
    src_x: int, src_y: int) -> bool {
    &&& before.same_but_pixels(&after)
    &&& forall|px: int, py: int| #[trigger] after.in_bounds(px, py) && after.has_bits() ==>
        after.px(px, py) == if dst_x <= px < dst_x + w && dst_y <= py < dst_y + h {
            src.px(px - dst_x + src_x, py - dst_y + src_y)
        } else {
            before.px(px, py)
        }
}

/// EngCopyBits: copy the `width` x `height` block at `(src_x, src_y)` of
/// the surface at `src` to `(dst_x, dst_y)` of the surface at `dst`, as
/// the source was before the copy. False, with nothing copied, when a
/// surface is missing or has no storage.
#[allow(non_snake_case)]
pub fn EngCopyBits(surfaces: &mut SurfaceTable, dst: u64, src: u64, dst_x: i32, dst_y: i32, src_x: i32, src_y: i32,
    width: i32, height: i32) -> (r: bool)
    requires
        old(surfaces).wf(),
        eng_copy_ok(old(surfaces), dst, src, dst_x, dst_y, src_x, src_y, width, height),
    ensures
        r == (stored_at(old(surfaces), dst) && stored_at(old(surfaces), src)),
        !r ==> final(surfaces).slots@ == old(surfaces).slots@ && final(surfaces).primary == old(surfaces).primary,
        r ==> surface_changed(old(surfaces), final(surfaces), dst, |d0: GdiSurface, d2: GdiSurface|
            if width > 0 && height > 0 {
                block_copied(d0, d2, old(surfaces).at(src).unwrap(), dst_x as int, dst_y as int, width as int, height as int,
                    src_x as int, src_y as int)
            } else {
                d2 == d0
            }),
{
    let d_has = match surfaces.get(dst) {
        Some(d) => d.bits.is_some(),
        None => false,
    };
    let s_has = match surfaces.get(src) {
        Some(s) => s.bits.is_some(),
        None => false,
    };
    if !d_has || !s_has {
        return false;
    }
    if width <= 0 || height <= 0 {
        proof {
            let d0 = old(surfaces).at(dst).unwrap();
            assert(old(surfaces).slots@ =~= old(surfaces).slots@.update(dst - 1, old(surfaces).at(dst)));
        }
        return true;
    }
    let ghost srcs = old(surfaces).at(src).unwrap();
    let block = match surfaces.get(src) {
        Some(s) => read_block(s, src_x as i64, src_y as i64, width as i64, height as i64),
        None => Vec::new(),
    };
    match surfaces.take(dst) {
        Some(mut d) => {
            let ghost d0 = d;
            write_block(&mut d, &block, dst_x as i64, dst_y as i64, width as i64, height as i64, SRCCOPY);
            proof {
                assert forall|px: int, py: int| #[trigger] d.in_bounds(px, py) && d.has_bits() implies
                    d.px(px, py) == if dst_x <= px < dst_x + width && dst_y <= py < dst_y + height {
                        srcs.px(px - dst_x + src_x, py - dst_y + src_y)
                    } else {
                        d0.px(px, py)
                    } by {
                    if dst_x <= px < dst_x + width && dst_y <= py < dst_y + height {
                        assert(block@[py - dst_y]@[px - dst_x] == crate::win32k::surface::pixel_read(srcs, src_x + (px - dst_x), src_y + (py - dst_y)));
                    }
                }
            }
            surfaces.put(dst, d);
            true
        },
        None => false,
    }
}

/// The pixels `EngFillRectangle` fills on surface `s`: those of
/// `left..right` x `top..bottom` on the surface, when it is 32-bit.
pub open spec fn eng_fill_hit(s: GdiSurface, left: int, top: int, right: int, bottom: int, px: int, py: int) -> bool {
    &&& is_32bpp(s.format)
    &&& max_int(left, 0) <= px < min_int(right, s.width as int)
    &&& max_int(top, 0) <= py < min_int(bottom, s.height as int)
}

/// EngFillRectangle: fill `left..right` x `top..bottom`, clipped to the
/// surface at `surface`, with `color` (only a 32-bit surface is written).
/// False when the surface is missing or has no storage.
#[allow(non_snake_case)]
pub fn EngFillRectangle(surfaces: &mut SurfaceTable, surface: u64, left: i32, top: i32, right: i32, bottom: i32, color: u32) -> (r: bool)
    requires
        old(surfaces).wf(),
    ensures
        r == stored_at(old(surfaces), surface),
        surface_changed(old(surfaces), final(surfaces), surface, |s: GdiSurface, s2: GdiSurface|
            if s.has_bits() {
                pixels_mapped(s, s2, |px: int, py: int| eng_fill_hit(s, left as int, top as int, right as int, bottom as int, px, py),
                    |v: u32| color)
            } else {
                s2 == s
            }),
{
    match surfaces.take(surface) {
        Some(mut s) => {
            if s.bits.is_none() {
                surfaces.put(surface, s);
                return false;
            }
            let l = if left > 0 { left } else { 0 };
            let t = if top > 0 { top } else { 0 };
            let rr = if right < s.width { right } else { s.width };
            let b = if bottom < s.height { bottom } else { s.height };
            if l < rr && t < b {
                fill_rect_solid(&mut s, l, t, rr - l, b - t, color);
            }
            surfaces.put(surface, s);
            true
        },
        None => false,
    }
}

/// EngLine: draw the line from `(x1, y1)` to `(x2, y2)` with Bresenham's
/// algorithm on the surface at `surface`; only a 32-bit surface is
/// written, and points off the surface are skipped. False when the surface
/// is missing or has no storage.
#[allow(non_snake_case)]
pub fn EngLine(surfaces: &mut SurfaceTable, surface: u64, x1: i32, y1: i32, x2: i32, y2: i32, color: u32) -> (r: bool)
    requires
        old(surfaces).wf(),
    ensures
        r == stored_at(old(surfaces), surface),
        surface_changed(old(surfaces), final(surfaces), surface, |s: GdiSurface, s2: GdiSurface|
            if s.has_bits() && is_32bpp(s.format) {
                points_painted(s, s2, line_points(x1 as int, y1 as int, x2 as int, y2 as int), color)
            } else {
                s2 == s
            }),
{
    match surfaces.take(surface) {
        Some(mut s) => {
            let ok = s.bits.is_some();
            let wide = s.format == crate::win32k::surface::PIXEL_FORMAT_32BPP
                || s.format == crate::win32k::surface::PIXEL_FORMAT_32BPP_ARGB;
            if ok && wide {
                draw_line(&mut s, x1, y1, x2, y2, color);
            }
            surfaces.put(surface, s);
            ok
        },
        None => false,
    }
}

} // verus!
