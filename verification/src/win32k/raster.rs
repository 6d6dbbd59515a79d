//! The graphics engine's surfaces and the drawing primitives that work on
//! them directly: pixel access, clearing, rectangle fills, lines, spans,
//! hatched fills, bitmap-font text, ellipses and block transfers.
//!
//! A surface's storage is a run of 32-bit words: the byte at offset
//! `y * pitch + 4 * x` holds pixel `(x, y)`, so with a pitch that is a
//! multiple of 4 the pixel is word `y * (pitch / 4) + x`. The pitch is the
//! width rounded up to a multiple of 4 *bytes*, so rows of a surface wider
//! than a quarter of its pitch share words, and a pixel may lie beyond the
//! storage. A write beyond the storage is dropped and a read beyond it
//! gives nothing; every drawing operation is described as the ordered
//! sequence of writes it makes, so that where two pixels share a word the
//! later write is the one that stays.

use vstd::prelude::*;
use crate::win32k::gdi_ops::{line_points, line_from, abs, between};
use crate::win32k::objects::HatchStyle;

verus! {

/// Surface description.
pub struct EngSurface {
    pub width: i32,
    pub height: i32,
    pub format: u32,
    pub pitch: i32,
    pub bits: Option<Vec<u32>>,
}

/// The pitch (bytes per row) of a 32bpp surface `width` pixels wide: four
/// bytes a pixel.
pub open spec fn pitch_for(width: i32) -> i32 {
    (width * 4) as i32
}

pub open spec fn iabs(v: int) -> int {
    if v < 0 { -v } else { v }
}

/// The pitch is four times the width: a multiple of 4, not negative for
/// a width that is not.
pub proof fn lemma_pitch(width: i32)
    requires
        i32::MIN <= width * 4 <= i32::MAX,
    ensures
        pitch_for(width) == width * 4,
        pitch_for(width) % 4 == 0,
        width >= 0 ==> pitch_for(width) >= 0,
        width < 0 ==> pitch_for(width) < 0,
{
}

impl EngSurface {
    /// The storage, where there is any, fits the word model: a pitch that
    /// is a non-negative multiple of 4, unless the storage is empty.
    pub open spec fn wf(&self) -> bool {
        self.bits matches Some(b) ==> (b@.len() == 0 || (self.pitch >= 0 && self.pitch % 4 == 0))
    }

    /// `(x, y)` lies on the surface.
    pub open spec fn on_surface(&self, x: int, y: int) -> bool {
        0 <= x < self.width && 0 <= y < self.height
    }

    /// The word that holds pixel `(x, y)`.
    pub open spec fn cell(&self, x: int, y: int) -> int {
        y * (self.pitch / 4) + x
    }

    /// The storage's words.
    pub open spec fn mem(&self) -> Seq<u32> {
        self.bits.unwrap()@
    }

    /// Pixel `(x, y)` is on the surface and held in its storage.
    pub open spec fn stored(&self, x: int, y: int) -> bool {
        &&& self.bits is Some
        &&& self.on_surface(x, y)
        &&& self.pitch >= 0
        &&& self.cell(x, y) < self.mem().len()
    }

    /// What reading pixel `(x, y)` gives.
    pub open spec fn read(&self, x: int, y: int) -> Option<u32> {
        if self.stored(x, y) { Some(self.mem()[self.cell(x, y)]) } else { None }
    }

    /// A surface of `width` x `height` pixels of `format`, with the pitch
    /// for its width and no storage yet.
    pub fn new(width: i32, height: i32, format: u32) -> (r: Self)
        requires
            i32::MIN <= width * 4 <= i32::MAX,
        ensures
            r.width == width && r.height == height && r.format == format,
            r.pitch == pitch_for(width),
            r.bits is None,
            r.wf(),
    {
        let pitch: i32 = width * 4;
        EngSurface { width, height, format, pitch, bits: None }
    }
}

/// `after` has the shape of `before` (size, format, pitch, whether there
/// is storage) and, where there is storage, holds the words `mem`.
pub open spec fn repainted(before: EngSurface, after: EngSurface, mem: Seq<u32>) -> bool {
    &&& after.width == before.width && after.height == before.height
    &&& after.format == before.format && after.pitch == before.pitch
    &&& (after.bits is Some <==> before.bits is Some)
    &&& before.bits is Some ==> after.mem() == mem
    &&& after.wf()
}

/// The words `mem` of surface `s` after writing `c` to pixel `(x, y)`:
/// only a pixel on the surface and within the storage is written.
pub open spec fn write_at(s: EngSurface, mem: Seq<u32>, x: int, y: int, c: u32) -> Seq<u32> {
    if s.bits is Some && s.on_surface(x, y) && s.pitch >= 0 && s.cell(x, y) < mem.len() {
        mem.update(s.cell(x, y), c)
    } else {
        mem
    }
}

/// The words `mem` of surface `s` after writing each `(x, y, colour)` of
/// `pts`, in order.
pub open spec fn paint(s: EngSurface, mem: Seq<u32>, pts: Seq<(int, int, u32)>) -> Seq<u32>
    decreases pts.len(),
{
    if pts.len() == 0 {
        mem
    } else {
        let p = pts.last();
        write_at(s, paint(s, mem, pts.drop_last()), p.0, p.1, p.2)
    }
}

/// Painting keeps the number of words.
pub proof fn lemma_paint_len(s: EngSurface, mem: Seq<u32>, pts: Seq<(int, int, u32)>)
    ensures
        paint(s, mem, pts).len() == mem.len(),
    decreases pts.len(),
{
    if pts.len() > 0 {
        lemma_paint_len(s, mem, pts.drop_last());
    }
}

/// Painting one more point is writing it after the others.
proof fn lemma_paint_push(s: EngSurface, mem: Seq<u32>, pts: Seq<(int, int, u32)>, p: (int, int, u32))
    ensures
        paint(s, mem, pts.push(p)) == write_at(s, paint(s, mem, pts), p.0, p.1, p.2),
{
    assert(pts.push(p).drop_last() =~= pts);
}

/// Word index of pixel `(x, y)` in the storage, when it is there.
fn cell_of(s: &EngSurface, x: i32, y: i32) -> (r: Option<usize>)
    requires
        s.wf(),
    ensures
        r matches Some(i) ==> s.stored(x as int, y as int) && i == s.cell(x as int, y as int),
        r is None ==> !s.stored(x as int, y as int),
{
    match &s.bits {
        None => None,
        Some(b) => {
            if x < 0 || x >= s.width || y < 0 || y >= s.height || s.pitch < 0 {
                return None;
            }
            let wp: i64 = ((s.pitch as u32) / 4) as i64;
            assert(wp == s.pitch / 4);
            let yy: i64 = y as i64;
            assert(yy * wp <= 0x7FFF_FFFF * 0x2000_0000) by (nonlinear_arith)
                requires
                    0 <= yy <= 0x7FFF_FFFF,
                    0 <= wp <= 0x2000_0000,
            ;
            assert(yy * wp >= 0) by (nonlinear_arith)
                requires
                    0 <= yy,
                    0 <= wp,
            ;
            let idx: i64 = yy * wp + (x as i64);
            if (idx as u64) < (b.len() as u64) {
                Some(idx as usize)
            } else {
                None
            }
        },
    }
}

/// The pixel at `(x, y)`: `None` when the surface has no storage, the
/// point is off the surface, or its word lies beyond the storage.
pub fn get_pixel_from_surface(surface: &EngSurface, x: i32, y: i32) -> (r: Option<u32>)
    requires
        surface.wf(),
    ensures
        r == surface.read(x as int, y as int),
{
    match cell_of(surface, x, y) {
        Some(i) => match &surface.bits {
            Some(b) => Some(b[i]),
            None => None,
        },
        None => None,
    }
}

/// Set pixel `(x, y)` to `color`. True when the surface has storage and
/// the point is on it (a word beyond the storage is then left alone).
pub fn set_pixel_on_surface(surface: &mut EngSurface, x: i32, y: i32, color: u32) -> (r: bool)
    requires
        old(surface).wf(),
    ensures
        r == (old(surface).bits is Some && old(surface).on_surface(x as int, y as int)),
        repainted(*old(surface), *final(surface), write_at(*old(surface), old(surface).mem(), x as int, y as int, color)),
{
    if surface.bits.is_none() || x < 0 || x >= surface.width || y < 0 || y >= surface.height {
        return false;
    }
    let ci = cell_of(surface, x, y);
    match ci {
        Some(i) => match &mut surface.bits {
            Some(b) => {
                b.set(i, color);
            },
            None => {},
        },
        None => {},
    }
    true
}

/// Give back a surface's storage; the surface keeps its shape.
pub fn free_surface(surface: &mut EngSurface)
    ensures
        final(surface).bits is None,
        final(surface).width == old(surface).width && final(surface).height == old(surface).height,
        final(surface).format == old(surface).format && final(surface).pitch == old(surface).pitch,
{
    surface.bits = None;
}

/// The byte size of the storage of a surface: pitch times the height's
/// magnitude.
pub open spec fn storage_bytes(width: i32, height: i32) -> int {
    pitch_for(width) * iabs(height as int)
}

/// Allocate a surface with zeroed storage of `pitch * |height|` bytes.
/// `None` when that size is negative (a request beyond any memory).
/// Sizes that do not fit 32 signed bits are left out.
pub fn allocate_surface(width: i32, height: i32, format: u32) -> (r: Option<EngSurface>)
    requires
        i32::MIN <= width * 4 <= i32::MAX,
        height != i32::MIN,
        i32::MIN <= storage_bytes(width, height) <= i32::MAX,
    ensures
        r is None <==> storage_bytes(width, height) < 0,
        r matches Some(s) ==> {
            &&& s.width == width && s.height == height && s.format == format
            &&& s.pitch == pitch_for(width)
            &&& s.bits is Some && s.wf()
            &&& s.mem().len() == storage_bytes(width, height) / 4
            &&& forall|i: int| 0 <= i < s.mem().len() ==> s.mem()[i] == 0
        },
{
    let mut surface = EngSurface::new(width, height, format);
    let pitch: i32 = width * 4;
    proof {
        lemma_pitch(width);
    }
    let ah: i32 = if height < 0 { -height } else { height };
    let size: i32 = pitch * ah;
    if size < 0 {
        return None;
    }
    let words: usize = (size / 4) as usize;
    let mut v: Vec<u32> = Vec::new();
    let mut i: usize = 0;
    while i < words
        invariant
            i <= words,
            v@.len() == i,
            forall|k: int| 0 <= k < i ==> v@[k] == 0,
        decreases words - i,
    {
        v.push(0);
        i = i + 1;
    }
    proof {
        if words > 0 && width < 0 {
            assert(pitch * ah <= 0) by (nonlinear_arith)
                requires
                    pitch < 0,
                    ah >= 0,
            ;
        }
    }
    surface.bits = Some(v);
    surface.pitch = pitch;
    Some(surface)
}

/// Clear the surface: the first `pitch * |height| / 4` words of the storage
/// (all of them, for storage of that size) become `color`.
pub fn clear_surface(surface: &mut EngSurface, color: u32)
    requires
        old(surface).wf(),
        old(surface).height != i32::MIN,
        i32::MIN <= old(surface).pitch * iabs(old(surface).height as int) <= i32::MAX,
    ensures
        repainted(*old(surface), *final(surface), {
            let n = old(surface).pitch * iabs(old(surface).height as int);
            Seq::new(old(surface).mem().len(), |i: int|
                if n > 0 && i < n / 4 { color } else { old(surface).mem()[i] })
        }),
{
    let ghost before = *surface;
    let ah: i32 = if surface.height < 0 { -surface.height } else { surface.height };
    let size: i32 = surface.pitch * ah;
    let lim: usize = if size > 0 { (size / 4) as usize } else { 0 };
    match &mut surface.bits {
        Some(b) => {
            let ghost orig = b@;
            let mut i: usize = 0;
            while i < b.len() && i < lim
                invariant
                    b@.len() == orig.len(),
                    i <= orig.len(),
                    i <= lim,
                    lim == (if size > 0 { size / 4 } else { 0 }),
                    forall|k: int| 0 <= k < orig.len() ==> b@[k] == if k < i { color } else { orig[k] },
                decreases orig.len() - i,
            {
                b.set(i, color);
                i = i + 1;
            }
            proof {
                assert(b@ =~= Seq::new(orig.len(), |k: int| if size > 0 && k < size / 4 { color } else { orig[k] }));
            }
        },
        None => {},
    }
}

// =============================================================================
// Rectangles
// =============================================================================

/// The points `(x, y, c)` for `x` from `l` up to `r - 1`.
pub open spec fn row_pts(l: int, r: int, y: int, c: u32) -> Seq<(int, int, u32)>
    decreases r - l,
{
    if r <= l { Seq::empty() } else { row_pts(l, r - 1, y, c).push((r - 1, y, c)) }
}

/// The points of the rectangle `[l, r) x [t, b)` in row order, each of
/// colour `c`.
pub open spec fn rect_pts(l: int, t: int, r: int, b: int, c: u32) -> Seq<(int, int, u32)>
    decreases b - t,
{
    if b <= t { Seq::empty() } else { rect_pts(l, t, r, b - 1, c) + row_pts(l, r, b - 1, c) }
}

pub open spec fn max_i(a: int, b: int) -> int {
    if a > b { a } else { b }
}

pub open spec fn min_i(a: int, b: int) -> int {
    if a < b { a } else { b }
}

/// Fill `[left, right) x [top, bottom)`, clipped to the surface, with
/// `color`, row by row.
pub fn fill_rect_solid(surface: &mut EngSurface, left: i32, top: i32, right: i32, bottom: i32, color: u32)
    requires
        old(surface).wf(),
    ensures
        repainted(*old(surface), *final(surface), paint(*old(surface), old(surface).mem(),
            rect_pts(max_i(left as int, 0), max_i(top as int, 0), min_i(right as int, old(surface).width as int),
                min_i(bottom as int, old(surface).height as int), color))),
{
    let ghost s0 = *surface;
    let ghost m0 = surface.mem();
    if surface.bits.is_none() {
        return;
    }
    let l: i32 = if left > 0 { left } else { 0 };
    let t: i32 = if top > 0 { top } else { 0 };
    let r: i32 = if right < surface.width { right } else { surface.width };
    let b: i32 = if bottom < surface.height { bottom } else { surface.height };
    if l >= r || t >= b {
        proof {
            if b <= t {
                assert(rect_pts(l as int, t as int, r as int, b as int, color) =~= Seq::empty());
            } else {
                lemma_rect_empty_cols(l as int, t as int, r as int, b as int, color);
            }
        }
        return;
    }
    let mut y: i32 = t;
    while y < b
        invariant
            t <= y <= b,
            0 <= l < r <= s0.width,
            0 <= t < b <= s0.height,
            s0.bits is Some,
            repainted(s0, *surface, paint(s0, m0, rect_pts(l as int, t as int, r as int, y as int, color))),
        decreases b - y,
    {
        let mut x: i32 = l;
        while x < r
            invariant
                l <= x <= r,
                0 <= l < r <= s0.width,
                t <= y < b <= s0.height,
                s0.bits is Some,
                repainted(s0, *surface, paint(s0, m0, rect_pts(l as int, t as int, r as int, y as int, color)
                    + row_pts(l as int, x as int, y as int, color))),
            decreases r - x,
        {
            let ghost done = rect_pts(l as int, t as int, r as int, y as int, color) + row_pts(l as int, x as int, y as int, color);
            let _ = set_pixel_on_surface(surface, x, y, color);
            proof {
                lemma_paint_push(s0, m0, done, (x as int, y as int, color));
                assert(done.push((x as int, y as int, color)) =~= rect_pts(l as int, t as int, r as int, y as int, color)
                    + row_pts(l as int, x + 1, y as int, color));
            }
            x = x + 1;
        }
        proof {
            assert(rect_pts(l as int, t as int, r as int, y + 1, color) == rect_pts(l as int, t as int, r as int, y as int, color)
                + row_pts(l as int, r as int, y as int, color));
        }
        y = y + 1;
    }
}

/// A rectangle with no columns has no points.
proof fn lemma_rect_empty_cols(l: int, t: int, r: int, b: int, c: u32)
    requires
        r <= l,
    ensures
        rect_pts(l, t, r, b, c) =~= Seq::<(int, int, u32)>::empty(),
    decreases b - t,
{
    if b > t {
        lemma_rect_empty_cols(l, t, r, b - 1, c);
        assert(row_pts(l, r, b - 1, c) =~= Seq::<(int, int, u32)>::empty());
    }
}

/// Fill a rectangle on a surface.
pub fn fill_rect_on_surface(surface: &mut EngSurface, left: i32, top: i32, right: i32, bottom: i32, color: u32)
    requires
        old(surface).wf(),
    ensures
        repainted(*old(surface), *final(surface), paint(*old(surface), old(surface).mem(),
            rect_pts(max_i(left as int, 0), max_i(top as int, 0), min_i(right as int, old(surface).width as int),
                min_i(bottom as int, old(surface).height as int), color))),
{
    fill_rect_solid(surface, left, top, right, bottom, color);
}

// =============================================================================
// Lines
// =============================================================================

/// `pts` with every point given colour `c`.
pub open spec fn colored(pts: Seq<(int, int)>, c: u32) -> Seq<(int, int, u32)> {
    Seq::new(pts.len(), |i: int| (pts[i].0, pts[i].1, c))
}

/// Draw a line with Bresenham's algorithm, writing its points in order
/// from `(x0, y0)` to `(x1, y1)`; nothing without storage.
pub fn draw_line_bresenham(surface: &mut EngSurface, x0: i32, y0: i32, x1: i32, y1: i32, color: u32)
    requires
        old(surface).wf(),
    ensures
        repainted(*old(surface), *final(surface), paint(*old(surface), old(surface).mem(),
            colored(line_points(x0 as int, y0 as int, x1 as int, y1 as int), color))),
{
    let ghost s0 = *surface;
    let ghost m0 = surface.mem();
    if surface.bits.is_none() {
        return;
    }
    let ddx: i64 = (x1 as i64) - (x0 as i64);
    let ddy: i64 = (y1 as i64) - (y0 as i64);
    let dx: i64 = if ddx < 0 { -ddx } else { ddx };
    let dy: i64 = if ddy < 0 { ddy } else { -ddy };
    let sx: i64 = if x0 < x1 { 1 } else { -1 };
    let sy: i64 = if y0 < y1 { 1 } else { -1 };
    let mut err: i64 = dx + dy;
    let mut x: i64 = x0 as i64;
    let mut y: i64 = y0 as i64;
    let ghost full = line_points(x0 as int, y0 as int, x1 as int, y1 as int);
    let ghost mut done: Seq<(int, int)> = Seq::empty();
    let ghost (gx0, gy0, gx1, gy1) = (x0 as int, y0 as int, x1 as int, y1 as int);
    assert(full == done + line_from(x as int, y as int, err as int, gx1, gy1, dx as int, dy as int, sx as int, sy as int));
    assert(colored(done, color) =~= Seq::empty());
    loop
        invariant_except_break
            full == done + line_from(x as int, y as int, err as int, gx1, gy1, dx as int, dy as int, sx as int, sy as int),
        invariant
            s0.bits is Some,
            repainted(s0, *surface, paint(s0, m0, colored(done, color))),
            gx0 == x0 && gy0 == y0 && gx1 == x1 && gy1 == y1,
            dx == abs(gx1 - gx0),
            dy == -abs(gy1 - gy0),
            sx == (if gx0 < gx1 { 1int } else { -1int }),
            sy == (if gy0 < gy1 { 1int } else { -1int }),
            between(x as int, gx0, gx1),
            between(y as int, gy0, gy1),
            3 * dy <= 2 * err <= 3 * dx,
            full == line_points(gx0, gy0, gx1, gy1),
        ensures
            repainted(s0, *surface, paint(s0, m0, colored(full, color))),
        decreases abs(gx1 - x) + abs(gy1 - y),
    {
        let ghost cur = line_from(x as int, y as int, err as int, gx1, gy1, dx as int, dy as int, sx as int, sy as int);
        let ghost done0 = done;
        let _ = set_pixel_on_surface(surface, x as i32, y as i32, color);
        proof {
            lemma_paint_push(s0, m0, colored(done0, color), (x as int, y as int, color));
            done = done.push((x as int, y as int));
            assert(colored(done, color) =~= colored(done0, color).push((x as int, y as int, color)));
        }
        if x == x1 as i64 && y == y1 as i64 {
            proof {
                assert(cur == seq![(x as int, y as int)]);
                assert(full =~= done);
            }
            break;
        }
        let e2 = 2 * err;
        if e2 >= dy {
            if x == x1 as i64 {
                proof {
                    assert(full =~= done);
                }
                break;
            }
            err = err + dy;
            x = x + sx;
        }
        if e2 <= dx {
            if y == y1 as i64 {
                proof {
                    assert(full =~= done);
                }
                break;
            }
            err = err + dx;
            y = y + sy;
        }
        proof {
            assert(cur == seq![(done.last().0, done.last().1)] + line_from(x as int, y as int, err as int, gx1, gy1, dx as int, dy as int, sx as int, sy as int));
            assert(full =~= done + line_from(x as int, y as int, err as int, gx1, gy1, dx as int, dy as int, sx as int, sy as int));
        }
    }
}

/// Draw a line on a surface.
pub fn draw_line_on_surface(surface: &mut EngSurface, x1: i32, y1: i32, x2: i32, y2: i32, color: u32)
    requires
        old(surface).wf(),
    ensures
        repainted(*old(surface), *final(surface), paint(*old(surface), old(surface).mem(),
            colored(line_points(x1 as int, y1 as int, x2 as int, y2 as int), color))),
{
    draw_line_bresenham(surface, x1, y1, x2, y2, color);
}

/// Draw a line; the antialiased variant draws the plain Bresenham line.
pub fn draw_line_antialiased(surface: &mut EngSurface, x0: i32, y0: i32, x1: i32, y1: i32, color: u32)
    requires
        old(surface).wf(),
    ensures
        repainted(*old(surface), *final(surface), paint(*old(surface), old(surface).mem(),
            colored(line_points(x0 as int, y0 as int, x1 as int, y1 as int), color))),
{
    draw_line_bresenham(surface, x0, y0, x1, y1, color);
}

/// The points `(x, y, c)` for `y` from `t` up to `b - 1`.
pub open spec fn col_pts(x: int, t: int, b: int, c: u32) -> Seq<(int, int, u32)>
    decreases b - t,
{
    if b <= t { Seq::empty() } else { col_pts(x, t, b - 1, c).push((x, b - 1, c)) }
}

/// Draw the horizontal span from `x1` to `x2` (both included) at row `y`.
pub fn draw_arc_horizontal(surface: &mut EngSurface, x1: i32, x2: i32, y: i32, color: u32)
    requires
        old(surface).wf(),
    ensures
        repainted(*old(surface), *final(surface), paint(*old(surface), old(surface).mem(),
            row_pts(x1 as int, x2 + 1, y as int, color))),
{
    let ghost s0 = *surface;
    let ghost m0 = surface.mem();
    if surface.bits.is_none() {
        return;
    }
    let mut x: i64 = x1 as i64;
    if x1 > x2 {
        proof {
            assert(row_pts(x1 as int, x2 + 1, y as int, color) =~= Seq::empty());
        }
        return;
    }
    while x <= x2 as i64
        invariant
            x1 <= x <= x2 + 1,
            s0.bits is Some,
            repainted(s0, *surface, paint(s0, m0, row_pts(x1 as int, x as int, y as int, color))),
        decreases x2 + 1 - x,
    {
        let ghost done = row_pts(x1 as int, x as int, y as int, color);
        let _ = set_pixel_on_surface(surface, x as i32, y, color);
        proof {
            lemma_paint_push(s0, m0, done, (x as int, y as int, color));
        }
        x = x + 1;
    }
}

/// Draw the vertical span from `y1` to `y2` (both included) at column `x`.
pub fn draw_arc_vertical(surface: &mut EngSurface, x: i32, y1: i32, y2: i32, color: u32)
    requires
        old(surface).wf(),
    ensures
        repainted(*old(surface), *final(surface), paint(*old(surface), old(surface).mem(),
            col_pts(x as int, y1 as int, y2 + 1, color))),
{
    let ghost s0 = *surface;
    let ghost m0 = surface.mem();
    if surface.bits.is_none() {
        return;
    }
    if y1 > y2 {
        proof {
            assert(col_pts(x as int, y1 as int, y2 + 1, color) =~= Seq::empty());
        }
        return;
    }
    let mut y: i64 = y1 as i64;
    while y <= y2 as i64
        invariant
            y1 <= y <= y2 + 1,
            s0.bits is Some,
            repainted(s0, *surface, paint(s0, m0, col_pts(x as int, y1 as int, y as int, color))),
        decreases y2 + 1 - y,
    {
        let ghost done = col_pts(x as int, y1 as int, y as int, color);
        let _ = set_pixel_on_surface(surface, x, y as i32, color);
        proof {
            lemma_paint_push(s0, m0, done, (x as int, y as int, color));
        }
        y = y + 1;
    }
}

// =============================================================================
// Raster operations
// =============================================================================

/// The pixel a raster operation makes of destination `pixel` and source
/// `color`; an unknown code copies the source.
pub open spec fn rop3(pixel: u32, color: u32, rop: u32) -> u32 {
    if rop == 0x00CC0020 { color }
    else if rop == 0x00EE0086 { pixel | color }
    else if rop == 0x008800C6 { pixel & color }
    else if rop == 0x00660046 { pixel ^ color }
    else if rop == 0x00550009 { !pixel }
    else if rop == 0x00000042 { 0 }
    else if rop == 0x00FF0062 { 0x00FFFFFF }
    else { color }
}

/// Apply a raster operation to a single pixel.
pub fn apply_rop(pixel: u32, color: u32, rop: u32) -> (r: u32)
    ensures
        r == rop3(pixel, color, rop),
{
    if rop == 0x00CC0020 {
        color
    } else if rop == 0x00EE0086 {
        pixel | color
    } else if rop == 0x008800C6 {
        pixel & color
    } else if rop == 0x00660046 {
        pixel ^ color
    } else if rop == 0x00550009 {
        !pixel
    } else if rop == 0x00000042 {
        0
    } else if rop == 0x00FF0062 {
        0x00FFFFFF
    } else {
        color
    }
}

/// Setting a pixel and reading it back gives the colour set, when the
/// pixel is held in the storage.
pub proof fn lemma_set_then_get(s: EngSurface, s2: EngSurface, x: i32, y: i32, c: u32)
    requires
        s.wf(),
        s.stored(x as int, y as int),
        repainted(s, s2, write_at(s, s.mem(), x as int, y as int, c)),
    ensures
        s2.read(x as int, y as int) == Some(c),
{
}


// =============================================================================
// Composing paints
// =============================================================================

/// Painting depends only on the shape of the surface, not on its words.
pub proof fn lemma_paint_same_shape(s1: EngSurface, s2: EngSurface, mem: Seq<u32>, pts: Seq<(int, int, u32)>)
    requires
        s1.width == s2.width && s1.height == s2.height && s1.pitch == s2.pitch,
        (s1.bits is Some <==> s2.bits is Some),
    ensures
        paint(s1, mem, pts) == paint(s2, mem, pts),
    decreases pts.len(),
{
    if pts.len() > 0 {
        lemma_paint_same_shape(s1, s2, mem, pts.drop_last());
    }
}

/// Painting `a` and then `b` is painting `a + b`.
pub proof fn lemma_paint_append(s: EngSurface, mem: Seq<u32>, a: Seq<(int, int, u32)>, b: Seq<(int, int, u32)>)
    ensures
        paint(s, paint(s, mem, a), b) == paint(s, mem, a + b),
    decreases b.len(),
{
    if b.len() == 0 {
        assert(a + b =~= a);
    } else {
        lemma_paint_append(s, mem, a, b.drop_last());
        assert((a + b).drop_last() =~= a + b.drop_last());
        assert((a + b).last() == b.last());
    }
}

// =============================================================================
// Hatched fills
// =============================================================================

/// Whether the hatch of `style` covers offset `(x, y)` of the rectangle.
pub open spec fn hatch_hit(style: HatchStyle, x: int, y: int) -> bool {
    match style {
        HatchStyle::Horizontal => y % 2 == 0,
        HatchStyle::Vertical => x % 2 == 0,
        HatchStyle::FDiagonal => (x + y) % 2 == 0,
        HatchStyle::BDiagonal => (x + y) % 2 == 0,
        HatchStyle::Cross => x % 2 == 0 || y % 2 == 0,
        HatchStyle::DiagonalCross => x % 2 == 0 && y % 2 == 0,
    }
}

/// The covered points of row `y` of the hatched rectangle at
/// `(left, top)`, for offsets `0..k`.
pub open spec fn brush_row(left: int, top: int, y: int, k: int, c: u32, style: HatchStyle) -> Seq<(int, int, u32)>
    decreases k,
{
    if k <= 0 {
        Seq::empty()
    } else if hatch_hit(style, k - 1, y) {
        brush_row(left, top, y, k - 1, c, style).push((left + k - 1, top + y, c))
    } else {
        brush_row(left, top, y, k - 1, c, style)
    }
}

/// The covered points of rows `0..rows` of the hatched rectangle `w` wide.
pub open spec fn brush_pts(left: int, top: int, rows: int, w: int, c: u32, style: HatchStyle) -> Seq<(int, int, u32)>
    decreases rows,
{
    if rows <= 0 { Seq::empty() } else { brush_pts(left, top, rows - 1, w, c, style) + brush_row(left, top, rows - 1, w, c, style) }
}

pub open spec fn is_diagonal(style: HatchStyle) -> bool {
    style is FDiagonal || style is BDiagonal
}

/// Fill `[left, right) x [top, bottom)` with the hatch pattern of
/// `hatch_style` in `color`, row by row; points off the surface are
/// skipped. Sizes whose width, height or (for the diagonal hatches)
/// largest offset sum do not fit 32 signed bits are left out.
pub fn fill_rect_with_brush(
    surface: &mut EngSurface,
    left: i32,
    top: i32,
    right: i32,
    bottom: i32,
    color: u32,
    hatch_style: HatchStyle,
)
    requires
        old(surface).wf(),
        old(surface).bits is Some ==> {
            &&& i32::MIN <= right - left <= i32::MAX
            &&& i32::MIN <= bottom - top <= i32::MAX
            &&& (is_diagonal(hatch_style) && right - left > 0 && bottom - top > 0) ==> (right - left - 1) + (bottom - top - 1) <= i32::MAX
        },
    ensures
        repainted(*old(surface), *final(surface), paint(*old(surface), old(surface).mem(),
            brush_pts(left as int, top as int, bottom - top, right - left, color, hatch_style))),
{
    let ghost s0 = *surface;
    let ghost m0 = surface.mem();
    if surface.bits.is_none() {
        return;
    }
    let width: i32 = right - left;
    let height: i32 = bottom - top;
    let mut y: i32 = 0;
    if height <= 0 {
        proof {
            assert(brush_pts(left as int, top as int, height as int, width as int, color, hatch_style) =~= Seq::empty());
        }
        return;
    }
    while y < height
        invariant
            0 <= y <= height,
            width == right - left,
            height == bottom - top,
            is_diagonal(hatch_style) && width > 0 ==> (width - 1) + (height - 1) <= i32::MAX,
            s0.bits is Some,
            repainted(s0, *surface, paint(s0, m0, brush_pts(left as int, top as int, y as int, width as int, color, hatch_style))),
        decreases height - y,
    {
        let mut x: i32 = 0;
        while x < width
            invariant
                0 <= x,
                width > 0 ==> x <= width,
                width <= 0 ==> x == 0,
                0 <= y < height,
                width == right - left,
                height == bottom - top,
                is_diagonal(hatch_style) && width > 0 ==> (width - 1) + (height - 1) <= i32::MAX,
                s0.bits is Some,
                repainted(s0, *surface, paint(s0, m0, brush_pts(left as int, top as int, y as int, width as int, color, hatch_style)
                    + brush_row(left as int, top as int, y as int, x as int, color, hatch_style))),
            decreases width - x,
        {
            let ghost done = brush_pts(left as int, top as int, y as int, width as int, color, hatch_style)
                + brush_row(left as int, top as int, y as int, x as int, color, hatch_style);
            let should_fill = match hatch_style {
                HatchStyle::Horizontal => y % 2 == 0,
                HatchStyle::Vertical => x % 2 == 0,
                HatchStyle::FDiagonal => (x + y) % 2 == 0,
                HatchStyle::BDiagonal => (x + y) % 2 == 0,
                HatchStyle::Cross => x % 2 == 0 || y % 2 == 0,
                HatchStyle::DiagonalCross => x % 2 == 0 && y % 2 == 0,
            };
            if should_fill {
                let _ = set_pixel_on_surface(surface, left + x, top + y, color);
                proof {
                    lemma_paint_push(s0, m0, done, ((left + x) as int, (top + y) as int, color));
                    assert(done.push(((left + x) as int, (top + y) as int, color)) =~=
                        brush_pts(left as int, top as int, y as int, width as int, color, hatch_style)
                        + brush_row(left as int, top as int, y as int, x + 1, color, hatch_style));
                }
            } else {
                proof {
                    assert(brush_row(left as int, top as int, y as int, x + 1, color, hatch_style)
                        == brush_row(left as int, top as int, y as int, x as int, color, hatch_style));
                }
            }
            x = x + 1;
        }
        proof {
            if width <= 0 {
                assert(x == 0);
            }
            assert(brush_pts(left as int, top as int, y + 1, width as int, color, hatch_style)
                == brush_pts(left as int, top as int, y as int, width as int, color, hatch_style)
                + brush_row(left as int, top as int, y as int, width as int, color, hatch_style));
            if width <= 0 {
                assert(brush_row(left as int, top as int, y as int, x as int, color, hatch_style)
                    == brush_row(left as int, top as int, y as int, width as int, color, hatch_style));
            }
        }
        y = y + 1;
    }
}

// =============================================================================
// Bitmap-font text
// =============================================================================

/// The seven rows of glyph `idx` (characters from space to tilde), first
/// row in the high byte. Row `r` of glyph `i` is byte `7 * i + r` of the
/// font's byte table; the table ends four rows into the last glyph.
pub open spec fn glyph_bits(idx: usize) -> u64 {
    match idx {
        0 => 0x00000000000000,
        1 => 0x183E3E3E180018,
        2 => 0x6C6C2400000000,
        3 => 0x247E24247E2400,
        4 => 0x042E683C0E7B00,
        5 => 0x60660C18306606,
        6 => 0x3C663C3867663F,
        7 => 0x18180800000000,
        8 => 0x08102020201008,
        9 => 0x08040202020408,
        10 => 0x00663CFF3C6600,
        11 => 0x0018187E181800,
        12 => 0x00000000001810,
        13 => 0x0000007E000000,
        14 => 0x00000000001818,
        15 => 0x0002060C183060,
        16 => 0x3C666E7666663C,
        17 => 0x1838181818187E,
        18 => 0x3C66061C30607E,
        19 => 0x3C66061C06663C,
        20 => 0x060E1E667F0606,
        21 => 0x7E607C0606663C,
        22 => 0x1C30607C66663C,
        23 => 0x7E660C18181818,
        24 => 0x3C66663C66663C,
        25 => 0x3C66663E060C38,
        26 => 0x00181800181800,
        27 => 0x00181800181810,
        28 => 0x08102040201008,
        29 => 0x00007E007E0000,
        30 => 0x08040201020408,
        31 => 0x3C66061C180018,
        32 => 0x3C666E6E60623C,
        33 => 0x182442427E4242,
        34 => 0x7C42427C42427C,
        35 => 0x3C66606060663C,
        36 => 0x786C6666666C78,
        37 => 0x7E60607C60607E,
        38 => 0x7E60607C606060,
        39 => 0x3C66606E66663E,
        40 => 0x6666667E666666,
        41 => 0x7E18181818187E,
        42 => 0x1F0C0C0C0C6C38,
        43 => 0x666C7870786C66,
        44 => 0x6060606060607E,
        45 => 0x63777F6B636363,
        46 => 0x66767E7E6E6666,
        47 => 0x3C66666666663C,
        48 => 0x7C66667C606060,
        49 => 0x3C666666666F3D,
        50 => 0x7C66667C6C6666,
        51 => 0x3C66603C06663C,
        52 => 0x7E181818181818,
        53 => 0x6666666666663C,
        54 => 0x66666666663C18,
        55 => 0x6363636B7F7763,
        56 => 0x66663C183C6666,
        57 => 0x6666663C181818,
        58 => 0x7E060C1830607E,
        59 => 0x3C30303030303C,
        60 => 0x6030180C060200,
        61 => 0x3C0C0C0C0C0C3C,
        62 => 0x18244200000000,
        63 => 0x0000000000007E,
        64 => 0x00003C063E663E,
        65 => 0x60607C6666667C,
        66 => 0x00003C6660663C,
        67 => 0x06063E6666663E,
        68 => 0x00003C667E603C,
        69 => 0x0C187E18181818,
        70 => 0x00003E66663E06,
        71 => 0x3C60607C666666,
        72 => 0x66180038181818,
        73 => 0x3C0C001C0C0C6C,
        74 => 0x386060666C786C,
        75 => 0x66381818181818,
        76 => 0x3C00006E7F6B63,
        77 => 0x6300007C666666,
        78 => 0x6600003C666666,
        79 => 0x3C00007C66667C,
        80 => 0x606000003E6666,
        81 => 0x3E060600006E76,
        82 => 0x60606000003E60,
        83 => 0x3C067C18183C18,
        84 => 0x181A0C00006666,
        85 => 0x66663E00006666,
        86 => 0x663C180000636B,
        87 => 0x7F77630000663C,
        88 => 0x183C6600006666,
        89 => 0x663E063C00007E,
        90 => 0x0C18307E0E1818,
        91 => 0x3018180E181818,
        92 => 0x18181818701818,
        93 => 0x0C18187000763C,
        94 => 0x00000000000000,
        _ => 0,
    }
}

/// The seven packed rows of glyph `idx`.
fn glyph(idx: usize) -> (g: u64)
    requires
        idx < 95,
    ensures
        g == glyph_bits(idx),
{
    match idx {
        0 => 0x00000000000000,
        1 => 0x183E3E3E180018,
        2 => 0x6C6C2400000000,
        3 => 0x247E24247E2400,
        4 => 0x042E683C0E7B00,
        5 => 0x60660C18306606,
        6 => 0x3C663C3867663F,
        7 => 0x18180800000000,
        8 => 0x08102020201008,
        9 => 0x08040202020408,
        10 => 0x00663CFF3C6600,
        11 => 0x0018187E181800,
        12 => 0x00000000001810,
        13 => 0x0000007E000000,
        14 => 0x00000000001818,
        15 => 0x0002060C183060,
        16 => 0x3C666E7666663C,
        17 => 0x1838181818187E,
        18 => 0x3C66061C30607E,
        19 => 0x3C66061C06663C,
        20 => 0x060E1E667F0606,
        21 => 0x7E607C0606663C,
        22 => 0x1C30607C66663C,
        23 => 0x7E660C18181818,
        24 => 0x3C66663C66663C,
        25 => 0x3C66663E060C38,
        26 => 0x00181800181800,
        27 => 0x00181800181810,
        28 => 0x08102040201008,
        29 => 0x00007E007E0000,
        30 => 0x08040201020408,
        31 => 0x3C66061C180018,
        32 => 0x3C666E6E60623C,
        33 => 0x182442427E4242,
        34 => 0x7C42427C42427C,
        35 => 0x3C66606060663C,
        36 => 0x786C6666666C78,
        37 => 0x7E60607C60607E,
        38 => 0x7E60607C606060,
        39 => 0x3C66606E66663E,
        40 => 0x6666667E666666,
        41 => 0x7E18181818187E,
        42 => 0x1F0C0C0C0C6C38,
        43 => 0x666C7870786C66,
        44 => 0x6060606060607E,
        45 => 0x63777F6B636363,
        46 => 0x66767E7E6E6666,
        47 => 0x3C66666666663C,
        48 => 0x7C66667C606060,
        49 => 0x3C666666666F3D,
        50 => 0x7C66667C6C6666,
        51 => 0x3C66603C06663C,
        52 => 0x7E181818181818,
        53 => 0x6666666666663C,
        54 => 0x66666666663C18,
        55 => 0x6363636B7F7763,
        56 => 0x66663C183C6666,
        57 => 0x6666663C181818,
        58 => 0x7E060C1830607E,
        59 => 0x3C30303030303C,
        60 => 0x6030180C060200,
        61 => 0x3C0C0C0C0C0C3C,
        62 => 0x18244200000000,
        63 => 0x0000000000007E,
        64 => 0x00003C063E663E,
        65 => 0x60607C6666667C,
        66 => 0x00003C6660663C,
        67 => 0x06063E6666663E,
        68 => 0x00003C667E603C,
        69 => 0x0C187E18181818,
        70 => 0x00003E66663E06,
        71 => 0x3C60607C666666,
        72 => 0x66180038181818,
        73 => 0x3C0C001C0C0C6C,
        74 => 0x386060666C786C,
        75 => 0x66381818181818,
        76 => 0x3C00006E7F6B63,
        77 => 0x6300007C666666,
        78 => 0x6600003C666666,
        79 => 0x3C00007C66667C,
        80 => 0x606000003E6666,
        81 => 0x3E060600006E76,
        82 => 0x60606000003E60,
        83 => 0x3C067C18183C18,
        84 => 0x181A0C00006666,
        85 => 0x66663E00006666,
        86 => 0x663C180000636B,
        87 => 0x7F77630000663C,
        88 => 0x183C6600006666,
        89 => 0x663E063C00007E,
        90 => 0x0C18307E0E1818,
        91 => 0x3018180E181818,
        92 => 0x18181818701818,
        93 => 0x0C18187000763C,
        94 => 0x00000000000000,
        _ => 0,
    }
}

/// Row `row` of glyph `idx` (rows past the seventh are blank).
pub open spec fn font_row(idx: int, row: int) -> u8 {
    if 0 <= row < 7 { ((glyph_bits(idx as usize) >> ((8 * (6 - row)) as u64)) & 0xFFu64) as u8 } else { 0 }
}

/// The point and colour of pixel `(col, row)` of the glyph cell at
/// `(x, y)`: the text colour where the glyph's bit is set, else the
/// background.
pub open spec fn glyph_px(x: int, y: int, idx: int, fg: u32, bg: u32, row: int, col: int) -> (int, int, u32) {
    (x + col, y + row, if (font_row(idx, row) >> ((7 - col) as u8)) & 1u8 != 0 { fg } else { bg })
}

/// Pixels `0..k` of row `row` of the glyph cell.
pub open spec fn glyph_row_pts(x: int, y: int, idx: int, fg: u32, bg: u32, row: int, k: int) -> Seq<(int, int, u32)>
    decreases k,
{
    if k <= 0 { Seq::empty() } else { glyph_row_pts(x, y, idx, fg, bg, row, k - 1).push(glyph_px(x, y, idx, fg, bg, row, k - 1)) }
}

/// Rows `0..rows` of the 8 x 8 glyph cell, in order.
pub open spec fn glyph_pts(x: int, y: int, idx: int, fg: u32, bg: u32, rows: int) -> Seq<(int, int, u32)>
    decreases rows,
{
    if rows <= 0 { Seq::empty() } else { glyph_pts(x, y, idx, fg, bg, rows - 1) + glyph_row_pts(x, y, idx, fg, bg, rows - 1, 8) }
}

/// The font index of character `ch`: its distance from the space,
/// wrapping below it.
pub open spec fn font_index(ch: u8) -> int {
    ((ch as int) - 32) % 256
}

/// The pixels `draw_char` writes for `ch` at `(x, y)`: the whole 8 x 8
/// cell for a character from space to tilde, nothing otherwise.
pub open spec fn char_pts(x: int, y: int, ch: u8, fg: u32, bg: u32) -> Seq<(int, int, u32)> {
    if font_index(ch) < 95 { glyph_pts(x, y, font_index(ch), fg, bg, 8) } else { Seq::empty() }
}

/// A character `draw_char` can draw on `s` at row `y`: the font table has
/// no last rows for the tilde, and the cell's coordinates must fit.
pub open spec fn char_drawable(s: EngSurface, x: int, y: int, ch: u8) -> bool {
    (s.bits is Some && font_index(ch) < 95) ==> (ch != 126 && x + 7 <= i32::MAX && y + 7 <= i32::MAX)
}

/// Draw character `ch` in the 8 x 8 cell at `(x, y)`: glyph bits in
/// `color`, the rest in `bg_color`, row by row; nothing for a character
/// outside the font or without storage.
pub fn draw_char(surface: &mut EngSurface, x: i32, y: i32, ch: u8, color: u32, bg_color: u32)
    requires
        old(surface).wf(),
        char_drawable(*old(surface), x as int, y as int, ch),
    ensures
        repainted(*old(surface), *final(surface), paint(*old(surface), old(surface).mem(),
            char_pts(x as int, y as int, ch, color, bg_color))),
{
    let ghost s0 = *surface;
    let ghost m0 = surface.mem();
    if surface.bits.is_none() {
        return;
    }
    let idx: usize = ch.wrapping_sub(32) as usize;
    assert(idx == font_index(ch));
    if idx >= 95 {
        return;
    }
    let g = glyph(idx);
    let mut row: i32 = 0;
    while row < 8
        invariant
            0 <= row <= 8,
            idx < 94,
            g == glyph_bits(idx),
            x + 7 <= i32::MAX && y + 7 <= i32::MAX,
            s0.bits is Some,
            repainted(s0, *surface, paint(s0, m0, glyph_pts(x as int, y as int, idx as int, color, bg_color, row as int))),
        decreases 8 - row,
    {
        let row_data: u8 = if row < 7 { ((g >> ((8 * (6 - row)) as u64)) & 0xFFu64) as u8 } else { 0 };
        assert(row_data == font_row(idx as int, row as int));
        let mut col: i32 = 0;
        while col < 8
            invariant
                0 <= col <= 8,
                0 <= row < 8,
                row_data == font_row(idx as int, row as int),
                x + 7 <= i32::MAX && y + 7 <= i32::MAX,
                s0.bits is Some,
                repainted(s0, *surface, paint(s0, m0, glyph_pts(x as int, y as int, idx as int, color, bg_color, row as int)
                    + glyph_row_pts(x as int, y as int, idx as int, color, bg_color, row as int, col as int))),
            decreases 8 - col,
        {
            let ghost done = glyph_pts(x as int, y as int, idx as int, color, bg_color, row as int)
                + glyph_row_pts(x as int, y as int, idx as int, color, bg_color, row as int, col as int);
            let bit = (row_data >> ((7 - col) as u8)) & 1u8;
            let pixel_color = if bit != 0 { color } else { bg_color };
            let _ = set_pixel_on_surface(surface, x + col, y + row, pixel_color);
            proof {
                let q = glyph_px(x as int, y as int, idx as int, color, bg_color, row as int, col as int);
                assert(q == ((x + col) as int, (y + row) as int, pixel_color));
                lemma_paint_push(s0, m0, done, q);
                assert(done.push(q) =~= glyph_pts(x as int, y as int, idx as int, color, bg_color, row as int)
                    + glyph_row_pts(x as int, y as int, idx as int, color, bg_color, row as int, col + 1));
            }
            col = col + 1;
        }
        proof {
            assert(glyph_pts(x as int, y as int, idx as int, color, bg_color, row + 1)
                == glyph_pts(x as int, y as int, idx as int, color, bg_color, row as int)
                + glyph_row_pts(x as int, y as int, idx as int, color, bg_color, row as int, 8));
        }
        row = row + 1;
    }
}

/// The pixels `draw_text` writes for `text` at `(x, y)`: each character
/// in its cell, 8 pixels right of the one before.
pub open spec fn text_pts(x: int, y: int, text: Seq<u8>, fg: u32, bg: u32) -> Seq<(int, int, u32)>
    decreases text.len(),
{
    if text.len() == 0 {
        Seq::empty()
    } else {
        text_pts(x, y, text.drop_last(), fg, bg) + char_pts(x + 8 * (text.len() - 1), y, text.last(), fg, bg)
    }
}

/// Draw `text` from `(x, y)`, one 8-pixel cell per character, and give
/// back the width drawn (8 per character). The cursor must stay within 32
/// signed bits, and with storage the text may not hold a tilde.
pub fn draw_text(surface: &mut EngSurface, x: i32, y: i32, text: &[u8], color: u32, bg_color: u32) -> (r: i32)
    requires
        old(surface).wf(),
        x + 8 * text@.len() <= i32::MAX,
        8 * text@.len() <= i32::MAX,
        forall|i: int| 0 <= i < text@.len() ==> char_drawable(*old(surface), x + 8 * i, y as int, #[trigger] text@[i]),
    ensures
        r == 8 * text@.len(),
        repainted(*old(surface), *final(surface), paint(*old(surface), old(surface).mem(),
            text_pts(x as int, y as int, text@, color, bg_color))),
{
    let ghost s0 = *surface;
    let ghost m0 = surface.mem();
    let mut cursor_x: i32 = x;
    let mut i: usize = 0;
    assert(text@.take(0) =~= Seq::<u8>::empty());
    while i < text.len()
        invariant
            i <= text@.len(),
            cursor_x == x + 8 * i,
            x + 8 * text@.len() <= i32::MAX,
            8 * text@.len() <= i32::MAX,
            forall|k: int| 0 <= k < text@.len() ==> char_drawable(s0, x + 8 * k, y as int, #[trigger] text@[k]),
            repainted(s0, *surface, paint(s0, m0, text_pts(x as int, y as int, text@.take(i as int), color, bg_color))),
        decreases text@.len() - i,
    {
        let ghost s1 = *surface;
        let ch = text[i];
        assert(char_drawable(s0, x + 8 * i, y as int, text@[i as int]));
        draw_char(surface, cursor_x, y, ch, color, bg_color);
        proof {
            let a = text_pts(x as int, y as int, text@.take(i as int), color, bg_color);
            let b = char_pts(cursor_x as int, y as int, ch, color, bg_color);
            lemma_paint_same_shape(s1, s0, paint(s0, m0, a), b);
            lemma_paint_append(s0, m0, a, b);
            assert(text@.take(i + 1).drop_last() =~= text@.take(i as int));
            assert(text@.take(i + 1).last() == ch);
        }
        cursor_x = cursor_x + 8;
        i = i + 1;
    }
    assert(text@.take(text@.len() as int) =~= text@);
    cursor_x - x
}

// =============================================================================
// Block transfers
// =============================================================================

/// Copy word `k` of row `y` of the block: from word
/// `(sy + y) * (src pitch / 4) + sx + k` of the source to word
/// `(dy + y) * (dst pitch / 4) + dx + k` of `m`, when both lie in their
/// storage.
pub open spec fn copy_word(dst: EngSurface, src: EngSurface, m: Seq<u32>, dx: int, dy: int, sx: int, sy: int, y: int, k: int) -> Seq<u32> {
    let di = (dy + y) * (dst.pitch / 4) + dx + k;
    let si = (sy + y) * (src.pitch / 4) + sx + k;
    if dst.pitch >= 0 && src.pitch >= 0 && 0 <= si < src.mem().len() && 0 <= di < m.len() {
        m.update(di, src.mem()[si])
    } else {
        m
    }
}

/// Copy words `0..k` of row `y` of the block, in order.
pub open spec fn copy_row(dst: EngSurface, src: EngSurface, m: Seq<u32>, dx: int, dy: int, sx: int, sy: int, y: int, k: int) -> Seq<u32>
    decreases k,
{
    if k <= 0 { m } else { copy_word(dst, src, copy_row(dst, src, m, dx, dy, sx, sy, y, k - 1), dx, dy, sx, sy, y, k - 1) }
}

/// Copy rows `0..rows` of a block `w` words wide, in order.
pub open spec fn copy_rows(dst: EngSurface, src: EngSurface, m: Seq<u32>, dx: int, dy: int, sx: int, sy: int, rows: int, w: int) -> Seq<u32>
    decreases rows,
{
    if rows <= 0 { m } else { copy_row(dst, src, copy_rows(dst, src, m, dx, dy, sx, sy, rows - 1, w), dx, dy, sx, sy, rows - 1, w) }
}

/// The word index `(a + y) * wp + b + k`, computed without overflow.
fn block_index(a: i32, y: i64, wp: i64, b: i32, k: i64) -> (r: i64)
    requires
        0 <= y <= i32::MAX,
        0 <= k <= i32::MAX,
        0 <= wp <= 0x2000_0000,
    ensures
        r == (a + y) * wp + b + k,
{
    let row: i64 = (a as i64) + y;
    assert(-0x1_0000_0000 * 0x2000_0000 <= row * wp <= 0x1_0000_0000 * 0x2000_0000) by (nonlinear_arith)
        requires
            -0x1_0000_0000 <= row <= 0x1_0000_0000,
            0 <= wp <= 0x2000_0000,
    ;
    row * wp + (b as i64) + k
}

/// Copy a `width` x `height` block of words from `src` at `(src_x, src_y)`
/// to `dst` at `(dst_x, dst_y)`, row by row. False, with nothing copied,
/// when either surface has no storage; words outside either storage are
/// skipped.
pub fn copy_rect(
    dst_surface: &mut EngSurface,
    dst_x: i32,
    dst_y: i32,
    src_surface: &EngSurface,
    src_x: i32,
    src_y: i32,
    width: i32,
    height: i32,
) -> (r: bool)
    requires
        old(dst_surface).wf(),
        src_surface.wf(),
    ensures
        r == (old(dst_surface).bits is Some && src_surface.bits is Some),
        repainted(*old(dst_surface), *final(dst_surface), if r {
            copy_rows(*old(dst_surface), *src_surface, old(dst_surface).mem(), dst_x as int, dst_y as int,
                src_x as int, src_y as int, height as int, width as int)
        } else {
            old(dst_surface).mem()
        }),
{
    let ghost d0 = *dst_surface;
    let ghost m0 = dst_surface.mem();
    if dst_surface.bits.is_none() || src_surface.bits.is_none() {
        return false;
    }
    let dwp: i64 = if dst_surface.pitch >= 0 { ((dst_surface.pitch as u32) / 4) as i64 } else { 0 };
    let swp: i64 = if src_surface.pitch >= 0 { ((src_surface.pitch as u32) / 4) as i64 } else { 0 };
    let dst_ok = dst_surface.pitch >= 0;
    let src_ok = src_surface.pitch >= 0;
    let h: i64 = if height > 0 { height as i64 } else { 0 };
    let w: i64 = if width > 0 { width as i64 } else { 0 };
    let src_bits: &Vec<u32> = match &src_surface.bits {
        Some(b) => b,
        None => { return false; },
    };
    assert(src_bits@ == src_surface.mem());
    match &mut dst_surface.bits {
        Some(db) => {
            let mut y: i64 = 0;
            while y < h
                invariant
                    0 <= y <= h,
                    h == (if height > 0 { height as int } else { 0 }),
                    w == (if width > 0 { width as int } else { 0 }),
                    dst_ok == (d0.pitch >= 0),
                    src_ok == (src_surface.pitch >= 0),
                    dst_ok ==> dwp == d0.pitch / 4,
                    src_ok ==> swp == src_surface.pitch / 4,
                    0 <= dwp <= 0x2000_0000,
                    0 <= swp <= 0x2000_0000,
                    src_bits@ == src_surface.mem(),
                    db@.len() == m0.len(),
                    db@ == copy_rows(d0, *src_surface, m0, dst_x as int, dst_y as int, src_x as int, src_y as int, y as int, width as int),
                decreases h - y,
            {
                let mut k: i64 = 0;
                while k < w
                    invariant
                        0 <= k <= w,
                        0 <= y < h,
                        h == (if height > 0 { height as int } else { 0 }),
                        w == (if width > 0 { width as int } else { 0 }),
                        dst_ok == (d0.pitch >= 0),
                        src_ok == (src_surface.pitch >= 0),
                        dst_ok ==> dwp == d0.pitch / 4,
                        src_ok ==> swp == src_surface.pitch / 4,
                        0 <= dwp <= 0x2000_0000,
                        0 <= swp <= 0x2000_0000,
                        src_bits@ == src_surface.mem(),
                        db@.len() == m0.len(),
                        db@ == copy_row(d0, *src_surface,
                            copy_rows(d0, *src_surface, m0, dst_x as int, dst_y as int, src_x as int, src_y as int, y as int, width as int),
                            dst_x as int, dst_y as int, src_x as int, src_y as int, y as int, k as int),
                    decreases w - k,
                {
                    let di = block_index(dst_y, y, dwp, dst_x, k);
                    let si = block_index(src_y, y, swp, src_x, k);
                    if dst_ok && src_ok && 0 <= si && (si as u64) < (src_bits.len() as u64) && 0 <= di
                        && (di as u64) < (db.len() as u64) {
                        let v = src_bits[si as usize];
                        db.set(di as usize, v);
                    }
                    k = k + 1;
                }
                proof {
                    let prev = copy_rows(d0, *src_surface, m0, dst_x as int, dst_y as int, src_x as int, src_y as int, y as int, width as int);
                    assert(copy_row(d0, *src_surface, prev, dst_x as int, dst_y as int, src_x as int, src_y as int, y as int, k as int)
                        == copy_row(d0, *src_surface, prev, dst_x as int, dst_y as int, src_x as int, src_y as int, y as int, width as int));
                }
                y = y + 1;
            }
            proof {
                assert(copy_rows(d0, *src_surface, m0, dst_x as int, dst_y as int, src_x as int, src_y as int, y as int, width as int)
                    == copy_rows(d0, *src_surface, m0, dst_x as int, dst_y as int, src_x as int, src_y as int, height as int, width as int));
            }
        },
        None => {},
    }
    true
}

/// Byte `b` of the words `mem`, the least significant byte of each word
/// first.
pub open spec fn byte_at(mem: Seq<u32>, b: int) -> u8 {
    ((mem[b / 4] >> ((8 * (b % 4)) as u32)) & 0xFFu32) as u8
}

/// Word `w` with its byte `lane` (the least significant being 0) set to
/// `v`.
pub open spec fn put_byte(w: u32, lane: int, v: u8) -> u32 {
    (w & !(0xFFu32 << ((8 * lane) as u32))) | ((v as u32) << ((8 * lane) as u32))
}

/// Copy byte `k` of row `y` of a block: from byte
/// `(sy + y) * src_pitch + sx + k` of `src` to byte
/// `(dy + y) * dst_pitch + dx + k` of `m`, when both lie in their storage.
pub open spec fn copy_byte(m: Seq<u32>, dst_pitch: int, src: Seq<u32>, src_pitch: int, dx: int, dy: int, sx: int, sy: int,
    y: int, k: int) -> Seq<u32> {
    let di = (dy + y) * dst_pitch + dx + k;
    let si = (sy + y) * src_pitch + sx + k;
    if 0 <= si < 4 * src.len() && 0 <= di < 4 * m.len() {
        m.update(di / 4, put_byte(m[di / 4], di % 4, byte_at(src, si)))
    } else {
        m
    }
}

/// Copy bytes `0..k` of row `y` of a block, in order.
pub open spec fn copy_byte_row(m: Seq<u32>, dst_pitch: int, src: Seq<u32>, src_pitch: int, dx: int, dy: int, sx: int, sy: int,
    y: int, k: int) -> Seq<u32>
    decreases k,
{
    if k <= 0 {
        m
    } else {
        copy_byte(copy_byte_row(m, dst_pitch, src, src_pitch, dx, dy, sx, sy, y, k - 1), dst_pitch, src, src_pitch,
            dx, dy, sx, sy, y, k - 1)
    }
}

/// Copy rows `0..rows` of a block `w` bytes wide, in order.
pub open spec fn copy_byte_rows(m: Seq<u32>, dst_pitch: int, src: Seq<u32>, src_pitch: int, dx: int, dy: int, sx: int, sy: int,
    rows: int, w: int) -> Seq<u32>
    decreases rows,
{
    if rows <= 0 {
        m
    } else {
        copy_byte_row(copy_byte_rows(m, dst_pitch, src, src_pitch, dx, dy, sx, sy, rows - 1, w), dst_pitch, src, src_pitch,
            dx, dy, sx, sy, rows - 1, w)
    }
}

/// The byte index `(a + y) * pitch + b + k`.
fn byte_index(a: i32, y: i64, pitch: i32, b: i32, k: i64) -> (r: i128)
    requires
        0 <= y <= i32::MAX,
        0 <= k <= i32::MAX,
    ensures
        r == (a + y) * pitch + b + k,
{
    let row: i128 = (a as i128) + (y as i128);
    let p: i128 = pitch as i128;
    assert(-0x1_0000_0000 * 0x8000_0000 <= row * p <= 0x1_0000_0000 * 0x8000_0000) by (nonlinear_arith)
        requires
            -0x1_0000_0000 <= row <= 0x1_0000_0000,
            -0x8000_0000 <= p <= 0x8000_0000,
    ;
    row * p + (b as i128) + (k as i128)
}

/// Copy a block of bytes between surfaces (the engine's block transfer,
/// whatever `rop` says): `height` rows of `width` bytes, from byte
/// `(src_y + y) * src pitch + src_x` of the source to byte
/// `(dst_y + y) * dst pitch + dst_x` of the destination, in order. Bytes
/// outside either storage are skipped. False, with nothing copied, when
/// either surface has no storage.
pub fn eng_bit_blt(
    dst_surface: &mut EngSurface,
    dst_x: i32,
    dst_y: i32,
    width: i32,
    height: i32,
    src_surface: &EngSurface,
    src_x: i32,
    src_y: i32,
    rop: u32,
) -> (r: bool)
    requires
        old(dst_surface).wf(),
    ensures
        r == (old(dst_surface).bits is Some && src_surface.bits is Some),
        repainted(*old(dst_surface), *final(dst_surface), if r {
            copy_byte_rows(old(dst_surface).mem(), old(dst_surface).pitch as int, src_surface.mem(), src_surface.pitch as int,
                dst_x as int, dst_y as int, src_x as int, src_y as int, height as int, width as int)
        } else {
            old(dst_surface).mem()
        }),
{
    let ghost d0 = *dst_surface;
    let ghost m0 = dst_surface.mem();
    let ghost sm = src_surface.mem();
    let ghost (dp, sp) = (d0.pitch as int, src_surface.pitch as int);
    if dst_surface.bits.is_none() {
        return false;
    }
    let src_bits: &Vec<u32> = match &src_surface.bits {
        Some(b) => b,
        None => { return false; },
    };
    let dst_pitch = dst_surface.pitch;
    let src_pitch = src_surface.pitch;
    let h: i64 = if height > 0 { height as i64 } else { 0 };
    let w: i64 = if width > 0 { width as i64 } else { 0 };
    match &mut dst_surface.bits {
        Some(db) => {
            let mut y: i64 = 0;
            while y < h
                invariant
                    0 <= y <= h,
                    h == (if height > 0 { height as int } else { 0 }),
                    w == (if width > 0 { width as int } else { 0 }),
                    dst_pitch == dp && src_pitch == sp,
                    src_bits@ == sm,
                    db@.len() == m0.len(),
                    db@ == copy_byte_rows(m0, dp, sm, sp, dst_x as int, dst_y as int, src_x as int, src_y as int, y as int, width as int),
                decreases h - y,
            {
                let ghost prev = db@;
                let mut k: i64 = 0;
                while k < w
                    invariant
                        0 <= k <= w,
                        0 <= y < h,
                        h == (if height > 0 { height as int } else { 0 }),
                        w == (if width > 0 { width as int } else { 0 }),
                        dst_pitch == dp && src_pitch == sp,
                        src_bits@ == sm,
                        db@.len() == m0.len(),
                        prev == copy_byte_rows(m0, dp, sm, sp, dst_x as int, dst_y as int, src_x as int, src_y as int, y as int, width as int),
                        db@ == copy_byte_row(prev, dp, sm, sp, dst_x as int, dst_y as int, src_x as int, src_y as int, y as int, k as int),
                    decreases w - k,
                {
                    let di = byte_index(dst_y, y, dst_pitch, dst_x, k);
                    let si = byte_index(src_y, y, src_pitch, src_x, k);
                    if 0 <= si && si < 4 * (src_bits.len() as i128) && 0 <= di && di < 4 * (db.len() as i128) {
                        let sw = src_bits[(si / 4) as usize];
                        let ssh: u32 = (8 * (si % 4)) as u32;
                        let v: u8 = ((sw >> ssh) & 0xFF) as u8;
                        let dw = db[(di / 4) as usize];
                        let dsh: u32 = (8 * (di % 4)) as u32;
                        let nw: u32 = (dw & !(0xFFu32 << dsh)) | ((v as u32) << dsh);
                        db.set((di / 4) as usize, nw);
                    }
                    k = k + 1;
                }
                proof {
                    assert(copy_byte_row(prev, dp, sm, sp, dst_x as int, dst_y as int, src_x as int, src_y as int, y as int, k as int)
                        == copy_byte_row(prev, dp, sm, sp, dst_x as int, dst_y as int, src_x as int, src_y as int, y as int, width as int));
                }
                y = y + 1;
            }
            proof {
                assert(copy_byte_rows(m0, dp, sm, sp, dst_x as int, dst_y as int, src_x as int, src_y as int, y as int, width as int)
                    == copy_byte_rows(m0, dp, sm, sp, dst_x as int, dst_y as int, src_x as int, src_y as int, height as int, width as int));
            }
        },
        None => {},
    }
    true
}

/// Apply the raster operation to word `x` of row `y` of the block: with
/// no source storage, the operation of black on black; otherwise the
/// operation of the current destination word and the source word, when
/// both lie in their storage.
pub open spec fn blt_px(dst: EngSurface, src: EngSurface, m: Seq<u32>, dx: int, dy: int, sx: int, sy: int, rop: u32, y: int, x: int) -> Seq<u32> {
    let di = (dy + y) * (dst.pitch / 4) + dx + x;
    let si = (sy + y) * (src.pitch / 4) + sx + x;
    if src.bits is None {
        if dst.pitch >= 0 && 0 <= di < m.len() { m.update(di, rop3(0, 0, rop)) } else { m }
    } else if dst.pitch >= 0 && src.pitch >= 0 && 0 <= si < src.mem().len() && 0 <= di < m.len() {
        m.update(di, rop3(m[di], src.mem()[si], rop))
    } else {
        m
    }
}

/// Words `0..k` of row `y` of the block, in order.
pub open spec fn blt_row(dst: EngSurface, src: EngSurface, m: Seq<u32>, dx: int, dy: int, sx: int, sy: int, rop: u32, y: int, k: int) -> Seq<u32>
    decreases k,
{
    if k <= 0 { m } else { blt_px(dst, src, blt_row(dst, src, m, dx, dy, sx, sy, rop, y, k - 1), dx, dy, sx, sy, rop, y, k - 1) }
}

/// Rows `0..rows` of a block `w` words wide, in order.
pub open spec fn blt_rows(dst: EngSurface, src: EngSurface, m: Seq<u32>, dx: int, dy: int, sx: int, sy: int, rop: u32, rows: int, w: int) -> Seq<u32>
    decreases rows,
{
    if rows <= 0 { m } else { blt_row(dst, src, blt_rows(dst, src, m, dx, dy, sx, sy, rop, rows - 1, w), dx, dy, sx, sy, rop, rows - 1, w) }
}

/// What a block transfer with raster operation `rop` leaves in the
/// destination's words.
pub open spec fn blt_result(dst: EngSurface, src: EngSurface, dx: int, dy: int, w: int, h: int, sx: int, sy: int, rop: u32) -> Seq<u32> {
    if dst.bits is None {
        dst.mem()
    } else if src.bits is Some && rop == 0x00CC0020 {
        copy_rows(dst, src, dst.mem(), dx, dy, sx, sy, h, w)
    } else {
        blt_rows(dst, src, dst.mem(), dx, dy, sx, sy, rop, h, w)
    }
}

/// Block transfer with a raster operation: a source copy goes through
/// `copy_rect`; otherwise each destination word of the block becomes the
/// operation of itself and the source word (or, with no source storage,
/// the operation's constant), row by row. False, with nothing written,
/// when the destination has no storage.
pub fn bit_blt_with_rop(
    dst_surface: &mut EngSurface,
    dst_x: i32,
    dst_y: i32,
    width: i32,
    height: i32,
    src_surface: &EngSurface,
    src_x: i32,
    src_y: i32,
    rop: u32,
) -> (r: bool)
    requires
        old(dst_surface).wf(),
        src_surface.wf(),
    ensures
        r == old(dst_surface).bits is Some,
        repainted(*old(dst_surface), *final(dst_surface), blt_result(*old(dst_surface), *src_surface,
            dst_x as int, dst_y as int, width as int, height as int, src_x as int, src_y as int, rop)),
{
    let ghost d0 = *dst_surface;
    let ghost m0 = dst_surface.mem();
    if dst_surface.bits.is_none() {
        return false;
    }
    if src_surface.bits.is_some() && rop == 0x00CC0020 {
        return copy_rect(dst_surface, dst_x, dst_y, src_surface, src_x, src_y, width, height);
    }
    let has_src = src_surface.bits.is_some();
    let dwp: i64 = if dst_surface.pitch >= 0 { ((dst_surface.pitch as u32) / 4) as i64 } else { 0 };
    let swp: i64 = if src_surface.pitch >= 0 { ((src_surface.pitch as u32) / 4) as i64 } else { 0 };
    let dst_ok = dst_surface.pitch >= 0;
    let src_ok = src_surface.pitch >= 0;
    let h: i64 = if height > 0 { height as i64 } else { 0 };
    let w: i64 = if width > 0 { width as i64 } else { 0 };
    let empty: Vec<u32> = Vec::new();
    let src_bits: &Vec<u32> = match &src_surface.bits {
        Some(b) => b,
        None => &empty,
    };
    match &mut dst_surface.bits {
        Some(db) => {
            let mut y: i64 = 0;
            while y < h
                invariant
                    0 <= y <= h,
                    h == (if height > 0 { height as int } else { 0 }),
                    w == (if width > 0 { width as int } else { 0 }),
                    has_src == (src_surface.bits is Some),
                    dst_ok == (d0.pitch >= 0),
                    src_ok == (src_surface.pitch >= 0),
                    dst_ok ==> dwp == d0.pitch / 4,
                    src_ok ==> swp == src_surface.pitch / 4,
                    0 <= dwp <= 0x2000_0000,
                    0 <= swp <= 0x2000_0000,
                    has_src ==> src_bits@ == src_surface.mem(),
                    db@.len() == m0.len(),
                    db@ == blt_rows(d0, *src_surface, m0, dst_x as int, dst_y as int, src_x as int, src_y as int, rop, y as int, width as int),
                decreases h - y,
            {
                let mut k: i64 = 0;
                while k < w
                    invariant
                        0 <= k <= w,
                        0 <= y < h,
                        h == (if height > 0 { height as int } else { 0 }),
                        w == (if width > 0 { width as int } else { 0 }),
                        has_src == (src_surface.bits is Some),
                        dst_ok == (d0.pitch >= 0),
                        src_ok == (src_surface.pitch >= 0),
                        dst_ok ==> dwp == d0.pitch / 4,
                        src_ok ==> swp == src_surface.pitch / 4,
                        0 <= dwp <= 0x2000_0000,
                        0 <= swp <= 0x2000_0000,
                        has_src ==> src_bits@ == src_surface.mem(),
                        db@.len() == m0.len(),
                        db@ == blt_row(d0, *src_surface,
                            blt_rows(d0, *src_surface, m0, dst_x as int, dst_y as int, src_x as int, src_y as int, rop, y as int, width as int),
                            dst_x as int, dst_y as int, src_x as int, src_y as int, rop, y as int, k as int),
                    decreases w - k,
                {
                    let di = block_index(dst_y, y, dwp, dst_x, k);
                    if !has_src {
                        if dst_ok && 0 <= di && (di as u64) < (db.len() as u64) {
                            let v = apply_rop(0, 0, rop);
                            db.set(di as usize, v);
                        }
                    } else {
                        let si = block_index(src_y, y, swp, src_x, k);
                        if dst_ok && src_ok && 0 <= si && (si as u64) < (src_bits.len() as u64) && 0 <= di
                            && (di as u64) < (db.len() as u64) {
                            let cur = db[di as usize];
                            let v = apply_rop(cur, src_bits[si as usize], rop);
                            db.set(di as usize, v);
                        }
                    }
                    k = k + 1;
                }
                proof {
                    let prev = blt_rows(d0, *src_surface, m0, dst_x as int, dst_y as int, src_x as int, src_y as int, rop, y as int, width as int);
                    assert(blt_row(d0, *src_surface, prev, dst_x as int, dst_y as int, src_x as int, src_y as int, rop, y as int, k as int)
                        == blt_row(d0, *src_surface, prev, dst_x as int, dst_y as int, src_x as int, src_y as int, rop, y as int, width as int));
                }
                y = y + 1;
            }
            proof {
                assert(blt_rows(d0, *src_surface, m0, dst_x as int, dst_y as int, src_x as int, src_y as int, rop, y as int, width as int)
                    == blt_rows(d0, *src_surface, m0, dst_x as int, dst_y as int, src_x as int, src_y as int, rop, height as int, width as int));
            }
        },
        None => {},
    }
    true
}

/// Block transfer between surfaces.
pub fn bit_blt_surfaces(
    dst_surface: &mut EngSurface,
    dst_x: i32,
    dst_y: i32,
    width: i32,
    height: i32,
    src_surface: &EngSurface,
    src_x: i32,
    src_y: i32,
    rop: u32,
) -> (r: bool)
    requires
        old(dst_surface).wf(),
        src_surface.wf(),
    ensures
        r == old(dst_surface).bits is Some,
        repainted(*old(dst_surface), *final(dst_surface), blt_result(*old(dst_surface), *src_surface,
            dst_x as int, dst_y as int, width as int, height as int, src_x as int, src_y as int, rop)),
{
    bit_blt_with_rop(dst_surface, dst_x, dst_y, width, height, src_surface, src_x, src_y, rop)
}


// =============================================================================
// Ellipses (midpoint algorithm)
// =============================================================================

pub open spec fn in32(v: int) -> bool {
    i32::MIN <= v <= i32::MAX
}

/// The four mirror images of `(x, y)` about the centre, in drawing order.
pub open spec fn quad(cx: int, cy: int, x: int, y: int, c: u32) -> Seq<(int, int, u32)> {
    seq![(cx + x, cy + y, c), (cx - x, cy + y, c), (cx + x, cy - y, c), (cx - x, cy - y, c)]
}

pub open spec fn quad_fits(cx: int, cy: int, x: int, y: int) -> bool {
    in32(cx + x) && in32(cx - x) && in32(cy + y) && in32(cy - y)
}

/// The first region goes on while the slope is below 1: `ry²x <= rx²y`.
pub open spec fn r1_cond(rx: int, ry: int, x: int, y: int) -> bool {
    ry * ry * x <= rx * rx * y
}

pub open spec fn r1_cond_fits(rx: int, ry: int, x: int, y: int) -> bool {
    in32(ry * ry) && in32(ry * ry * x) && in32(rx * rx) && in32(rx * rx * y)
}

/// The state after one step of the first region: `x` moves on, and `y`
/// moves down when the decision value is not negative.
pub open spec fn r1_next(rx: int, ry: int, x: int, y: int, d: int) -> (int, int, int) {
    let nx = x + 1;
    let t = ry * ry * (2 * nx + 1);
    if d < 0 { (nx, y, d + t) } else { (nx, y - 1, d + (t - 2 * rx * rx * (y - 1))) }
}

/// Every value one step of the first region computes fits 32 signed bits.
pub open spec fn r1_step_fits(rx: int, ry: int, x: int, y: int, d: int) -> bool {
    let nx = x + 1;
    let t = ry * ry * (2 * nx + 1);
    &&& in32(nx) && in32(2 * nx) && in32(2 * nx + 1) && in32(ry * ry) && in32(t)
    &&& d < 0 ==> in32(d + t)
    &&& d >= 0 ==> {
        &&& in32(y - 1) && in32(2 * rx) && in32(2 * rx * rx) && in32(2 * rx * rx * (y - 1))
        &&& in32(t - 2 * rx * rx * (y - 1)) && in32(d + (t - 2 * rx * rx * (y - 1)))
    }
}

pub open spec fn r1_measure(rx: int, ry: int, x: int, y: int) -> int {
    let m = rx * rx * y - ry * ry * x + 1;
    if m > 0 { m } else { 0 }
}

/// A step of the first region brings its measure down.
pub proof fn lemma_r1_measure(rx: int, ry: int, x: int, y: int, d: int)
    requires
        rx >= 1,
        ry >= 1,
        r1_cond(rx, ry, x, y),
    ensures
        r1_measure(rx, ry, r1_next(rx, ry, x, y, d).0, r1_next(rx, ry, x, y, d).1) < r1_measure(rx, ry, x, y),
{
    assert(ry * ry * (x + 1) == ry * ry * x + ry * ry) by (nonlinear_arith);
    assert(rx * rx * (y - 1) == rx * rx * y - rx * rx) by (nonlinear_arith);
    assert(ry * ry >= 1) by (nonlinear_arith)
        requires
            ry >= 1,
    ;
    assert(rx * rx >= 0) by (nonlinear_arith);
}

/// The points the first region draws from state `(x, y, d)`.
pub open spec fn r1_pts(cx: int, cy: int, rx: int, ry: int, x: int, y: int, d: int, c: u32) -> Seq<(int, int, u32)>
    decreases r1_measure(rx, ry, x, y),
{
    if rx < 1 || ry < 1 || !r1_cond(rx, ry, x, y) {
        Seq::empty()
    } else {
        let n = r1_next(rx, ry, x, y, d);
        proof {
            lemma_r1_measure(rx, ry, x, y, d);
        }
        quad(cx, cy, x, y, c) + r1_pts(cx, cy, rx, ry, n.0, n.1, n.2, c)
    }
}

/// Every value the first region computes from state `(x, y, d)` fits.
pub open spec fn r1_fits(cx: int, cy: int, rx: int, ry: int, x: int, y: int, d: int) -> bool
    decreases r1_measure(rx, ry, x, y),
{
    if rx < 1 || ry < 1 {
        true
    } else {
        &&& r1_cond_fits(rx, ry, x, y)
        &&& r1_cond(rx, ry, x, y) ==> {
            let n = r1_next(rx, ry, x, y, d);
            proof {
                lemma_r1_measure(rx, ry, x, y, d);
            }
            &&& quad_fits(cx, cy, x, y)
            &&& r1_step_fits(rx, ry, x, y, d)
            &&& r1_fits(cx, cy, rx, ry, n.0, n.1, n.2)
        }
    }
}

/// The state the first region ends in.
pub open spec fn r1_end(rx: int, ry: int, x: int, y: int, d: int) -> (int, int, int)
    decreases r1_measure(rx, ry, x, y),
{
    if rx < 1 || ry < 1 || !r1_cond(rx, ry, x, y) {
        (x, y, d)
    } else {
        let n = r1_next(rx, ry, x, y, d);
        proof {
            lemma_r1_measure(rx, ry, x, y, d);
        }
        r1_end(rx, ry, n.0, n.1, n.2)
    }
}

/// The second region's first decision value.
pub open spec fn d2_init(rx: int, ry: int, x: int, y: int) -> int {
    (ry * ry) * ((x - 1) * (x - 1)) + (rx * rx) * ((y - 1) * (y - 1)) - (rx * rx) * (ry * ry)
}

pub open spec fn d2_init_fits(rx: int, ry: int, x: int, y: int) -> bool {
    let a = (ry * ry) * ((x - 1) * (x - 1));
    let b = (rx * rx) * ((y - 1) * (y - 1));
    &&& in32(x - 1) && in32((x - 1) * (x - 1)) && in32(ry * ry) && in32(a)
    &&& in32(y - 1) && in32((y - 1) * (y - 1)) && in32(rx * rx) && in32(b)
    &&& in32(a + b) && in32((rx * rx) * (ry * ry)) && in32(a + b - (rx * rx) * (ry * ry))
}

/// The state after one step of the second region: `y` moves down, and `x`
/// moves on when the decision value is not positive.
pub open spec fn r2_next(rx: int, ry: int, x: int, y: int, d: int) -> (int, int, int) {
    let ny = y - 1;
    if d > 0 {
        (x, ny, d + (rx * rx - 2 * rx * rx * ny))
    } else {
        let nx = x + 1;
        (nx, ny, d + (ry * ry * (2 * nx - 1) - 2 * rx * rx * ny))
    }
}

/// Every value one step of the second region computes fits.
pub open spec fn r2_step_fits(rx: int, ry: int, x: int, y: int, d: int) -> bool {
    let ny = y - 1;
    &&& in32(ny) && in32(rx * rx) && in32(2 * rx) && in32(2 * rx * rx) && in32(2 * rx * rx * ny)
    &&& d > 0 ==> in32(rx * rx - 2 * rx * rx * ny) && in32(d + (rx * rx - 2 * rx * rx * ny))
    &&& d <= 0 ==> {
        let nx = x + 1;
        &&& in32(nx) && in32(2 * nx) && in32(2 * nx - 1) && in32(ry * ry) && in32(ry * ry * (2 * nx - 1))
        &&& in32(ry * ry * (2 * nx - 1) - 2 * rx * rx * ny) && in32(d + (ry * ry * (2 * nx - 1) - 2 * rx * rx * ny))
    }
}

/// The points the second region draws from state `(x, y, d)`.
pub open spec fn r2_pts(cx: int, cy: int, rx: int, ry: int, x: int, y: int, d: int, c: u32) -> Seq<(int, int, u32)>
    decreases (if y >= 0 { y + 1 } else { 0 }),
{
    if y < 0 {
        Seq::empty()
    } else {
        let n = r2_next(rx, ry, x, y, d);
        quad(cx, cy, x, y, c) + r2_pts(cx, cy, rx, ry, n.0, n.1, n.2, c)
    }
}

/// Every value the second region computes from state `(x, y, d)` fits.
pub open spec fn r2_fits(cx: int, cy: int, rx: int, ry: int, x: int, y: int, d: int) -> bool
    decreases (if y >= 0 { y + 1 } else { 0 }),
{
    if y < 0 {
        true
    } else {
        let n = r2_next(rx, ry, x, y, d);
        &&& quad_fits(cx, cy, x, y)
        &&& r2_step_fits(rx, ry, x, y, d)
        &&& r2_fits(cx, cy, rx, ry, n.0, n.1, n.2)
    }
}

/// The first region's first decision value.
pub open spec fn d1_init(rx: int, ry: int) -> int {
    ry * ry - rx * rx * ry + rx * rx / 4
}

pub open spec fn d1_init_fits(rx: int, ry: int) -> bool {
    &&& in32(ry * ry) && in32(rx * rx) && in32(rx * rx * ry) && in32(ry * ry - rx * rx * ry)
    &&& in32(rx * rx / 4) && in32(ry * ry - rx * rx * ry + rx * rx / 4)
}

/// Every value the midpoint algorithm computes for the ellipse fits 32
/// signed bits (the algorithm's own arithmetic is 32-bit).
pub open spec fn ellipse_fits(cx: int, cy: int, rx: int, ry: int) -> bool {
    rx <= 0 || ry <= 0 || {
        let e = r1_end(rx, ry, 0, ry, d1_init(rx, ry));
        &&& d1_init_fits(rx, ry)
        &&& r1_fits(cx, cy, rx, ry, 0, ry, d1_init(rx, ry))
        &&& d2_init_fits(rx, ry, e.0, e.1)
        &&& r2_fits(cx, cy, rx, ry, e.0, e.1, d2_init(rx, ry, e.0, e.1))
    }
}

/// The points `draw_ellipse` writes, in order: nothing for a radius that
/// is not positive; else the first region from the top of the ellipse
/// while the slope is below 1, then the second down to the x axis.
pub open spec fn ellipse_pts(cx: int, cy: int, rx: int, ry: int, c: u32) -> Seq<(int, int, u32)> {
    if rx <= 0 || ry <= 0 {
        Seq::empty()
    } else {
        let e = r1_end(rx, ry, 0, ry, d1_init(rx, ry));
        r1_pts(cx, cy, rx, ry, 0, ry, d1_init(rx, ry), c) + r2_pts(cx, cy, rx, ry, e.0, e.1, d2_init(rx, ry, e.0, e.1), c)
    }
}

/// Write the four mirror images of `(x, y)` about `(cx, cy)`.
fn put_quad(surface: &mut EngSurface, cx: i32, cy: i32, x: i32, y: i32, color: u32, Ghost(s0): Ghost<EngSurface>,
    Ghost(m0): Ghost<Seq<u32>>, Ghost(done): Ghost<Seq<(int, int, u32)>>)
    requires
        old(surface).wf(),
        quad_fits(cx as int, cy as int, x as int, y as int),
        s0.bits is Some,
        repainted(s0, *old(surface), paint(s0, m0, done)),
    ensures
        repainted(s0, *final(surface), paint(s0, m0, done + quad(cx as int, cy as int, x as int, y as int, color))),
{
    let ghost q = quad(cx as int, cy as int, x as int, y as int, color);
    let _ = set_pixel_on_surface(surface, cx + x, cy + y, color);
    proof {
        lemma_paint_push(s0, m0, done, q[0]);
    }
    let _ = set_pixel_on_surface(surface, cx - x, cy + y, color);
    proof {
        lemma_paint_push(s0, m0, done.push(q[0]), q[1]);
    }
    let _ = set_pixel_on_surface(surface, cx + x, cy - y, color);
    proof {
        lemma_paint_push(s0, m0, done.push(q[0]).push(q[1]), q[2]);
    }
    let _ = set_pixel_on_surface(surface, cx - x, cy - y, color);
    proof {
        lemma_paint_push(s0, m0, done.push(q[0]).push(q[1]).push(q[2]), q[3]);
        assert(done.push(q[0]).push(q[1]).push(q[2]).push(q[3]) =~= done + q);
    }
}

/// Draw the ellipse centred on `(cx, cy)` with radii `rx`, `ry` by the
/// midpoint algorithm; nothing for a radius that is not positive or
/// without storage. Ellipses for which the algorithm's 32-bit arithmetic
/// would overflow are left out.
pub fn draw_ellipse(surface: &mut EngSurface, cx: i32, cy: i32, rx: i32, ry: i32, color: u32)
    requires
        old(surface).wf(),
        old(surface).bits is Some ==> ellipse_fits(cx as int, cy as int, rx as int, ry as int),
    ensures
        repainted(*old(surface), *final(surface), paint(*old(surface), old(surface).mem(),
            ellipse_pts(cx as int, cy as int, rx as int, ry as int, color))),
{
    let ghost s0 = *surface;
    let ghost m0 = surface.mem();
    if surface.bits.is_none() || rx <= 0 || ry <= 0 {
        return;
    }
    let ghost (gcx, gcy, grx, gry) = (cx as int, cy as int, rx as int, ry as int);
    let ghost d10 = d1_init(grx, gry);
    let ghost e = r1_end(grx, gry, 0, gry, d10);
    let ghost full1 = r1_pts(gcx, gcy, grx, gry, 0, gry, d10, color);
    let mut x: i32 = 0;
    let mut y: i32 = ry;
    let mut d1: i32 = ry * ry - rx * rx * ry + (rx * rx / 4);
    let ghost mut done: Seq<(int, int, u32)> = Seq::empty();
    assert(full1 =~= done + r1_pts(gcx, gcy, grx, gry, x as int, y as int, d1 as int, color));
    while ry * ry * x <= rx * rx * y
        invariant
            rx >= 1 && ry >= 1,
            gcx == cx && gcy == cy && grx == rx && gry == ry,
            s0.bits is Some,
            repainted(s0, *surface, paint(s0, m0, done)),
            full1 == done + r1_pts(gcx, gcy, grx, gry, x as int, y as int, d1 as int, color),
            r1_fits(gcx, gcy, grx, gry, x as int, y as int, d1 as int),
            r1_end(grx, gry, x as int, y as int, d1 as int) == e,
        decreases r1_measure(rx as int, ry as int, x as int, y as int),
    {
        proof {
            lemma_r1_measure(grx, gry, x as int, y as int, d1 as int);
        }
        let ghost n = r1_next(grx, gry, x as int, y as int, d1 as int);
        let ghost rest = r1_pts(gcx, gcy, grx, gry, n.0, n.1, n.2, color);
        assert(r1_pts(gcx, gcy, grx, gry, x as int, y as int, d1 as int, color)
            == quad(gcx, gcy, x as int, y as int, color) + rest);
        put_quad(surface, cx, cy, x, y, color, Ghost(s0), Ghost(m0), Ghost(done));
        proof {
            done = done + quad(gcx, gcy, x as int, y as int, color);
        }
        x = x + 1;
        if d1 < 0 {
            d1 = d1 + ry * ry * (2 * x + 1);
        } else {
            y = y - 1;
            d1 = d1 + (ry * ry * (2 * x + 1) - 2 * rx * rx * y);
        }
        proof {
            assert(full1 =~= done + rest);
        }
    }
    assert(e == (x as int, y as int, d1 as int));
    let ghost full2 = r2_pts(gcx, gcy, grx, gry, x as int, y as int, d2_init(grx, gry, x as int, y as int), color);
    let ghost done1 = done;
    let mut d2: i32 = (ry * ry) * ((x - 1) * (x - 1)) + (rx * rx) * ((y - 1) * (y - 1)) - (rx * rx) * (ry * ry);
    assert(full1 + full2 =~= done + r2_pts(gcx, gcy, grx, gry, x as int, y as int, d2 as int, color));
    while y >= 0
        invariant
            rx >= 1 && ry >= 1,
            gcx == cx && gcy == cy && grx == rx && gry == ry,
            s0.bits is Some,
            repainted(s0, *surface, paint(s0, m0, done)),
            full1 + full2 == done + r2_pts(gcx, gcy, grx, gry, x as int, y as int, d2 as int, color),
            r2_fits(gcx, gcy, grx, gry, x as int, y as int, d2 as int),
        decreases y + 1,
    {
        let ghost n = r2_next(grx, gry, x as int, y as int, d2 as int);
        let ghost rest = r2_pts(gcx, gcy, grx, gry, n.0, n.1, n.2, color);
        assert(r2_pts(gcx, gcy, grx, gry, x as int, y as int, d2 as int, color)
            == quad(gcx, gcy, x as int, y as int, color) + rest);
        put_quad(surface, cx, cy, x, y, color, Ghost(s0), Ghost(m0), Ghost(done));
        proof {
            done = done + quad(gcx, gcy, x as int, y as int, color);
        }
        y = y - 1;
        if d2 > 0 {
            d2 = d2 + (rx * rx - 2 * rx * rx * y);
        } else {
            x = x + 1;
            d2 = d2 + (ry * ry * (2 * x - 1) - 2 * rx * rx * y);
        }
        proof {
            assert(full1 + full2 =~= done + rest);
        }
    }
    assert(r2_pts(gcx, gcy, grx, gry, x as int, y as int, d2 as int, color) =~= Seq::empty());
    assert(done =~= full1 + full2);
}

/// Draw the circle centred on `(cx, cy)` with radius `r`: the ellipse with
/// both radii `r`.
pub fn draw_circle(surface: &mut EngSurface, cx: i32, cy: i32, r: i32, color: u32)
    requires
        old(surface).wf(),
        old(surface).bits is Some ==> ellipse_fits(cx as int, cy as int, r as int, r as int),
    ensures
        repainted(*old(surface), *final(surface), paint(*old(surface), old(surface).mem(),
            ellipse_pts(cx as int, cy as int, r as int, r as int, color))),
{
    draw_ellipse(surface, cx, cy, r, r, color);
}

} // verus!
