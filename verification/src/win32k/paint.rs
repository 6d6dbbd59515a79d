//! Painting: BeginPaint/EndPaint, invalidation and validation of window
//! areas, redraw requests and the conversions between client and screen
//! coordinates.

use vstd::prelude::*;
use crate::win32k::objects::{Rect, GdiState};
use crate::win32k::dc::{DcHandleTable, DcObject, GreCreateDisplayDC, GreDeleteDC, DC_TYPE_DISPLAY, DC_TYPE_WINDOW,
    snapshot, default_saved_state, dc_index, get_dc};
use crate::win32k::surface::{SurfaceTable, GdiSurface};
use crate::win32k::gdi_ops::{GreRectangle, rect_args_ok, surface_changed, dc_surface_addr, rectangle_drawn, dc_pen_color,
    dc_brush_color};
use crate::win32k::window::{WindowManager, WindowObject, invalidate_rect_internal, update_window_internal,
    get_window_rect_internal, get_client_rect_internal, invalidated, updated_window, window_updated, unchanged};

verus! {

/// Point in screen coordinates.
#[derive(Debug, Clone, Copy)]
#[allow(non_camel_case_types)]
pub struct POINT {
    pub x: i32,
    pub y: i32,
}

impl POINT {
    pub fn new(x: i32, y: i32) -> (r: Self)
        ensures
            r == (POINT { x, y }),
    {
        POINT { x, y }
    }
}

/// Paint structure for BeginPaint/EndPaint.
#[derive(Debug, Clone, Copy)]
#[allow(non_snake_case, non_camel_case_types)]
pub struct PAINTSTRUCT {
    /// The device context to paint with.
    pub hdc: u64,
    /// Whether the background needs erasing.
    pub fErase: bool,
    /// The rectangle that needs painting.
    pub rcPaint_left: i32,
    pub rcPaint_top: i32,
    pub rcPaint_right: i32,
    pub rcPaint_bottom: i32,
    pub fRestore: bool,
    pub fIncUpdate: bool,
    pub rgbReserved: [u8; 32],
}

/// Redraw flags (RDW_*) as a bit mask.
#[derive(Debug, Clone, Copy, PartialEq, Eq, Structural, Default)]
pub struct UpdateRegionFlags(pub u32);

impl UpdateRegionFlags {
    pub const RDW_INVALIDATE: u32 = 0x0001;
    pub const RDW_INTERNALPAINT: u32 = 0x0002;
    pub const RDW_ERASE: u32 = 0x0004;
    pub const RDW_VALIDATE: u32 = 0x0008;
    pub const RDW_NOINTERNALPAINT: u32 = 0x0010;
    pub const RDW_NOERASE: u32 = 0x0020;
    pub const RDW_NOCHILDREN: u32 = 0x0040;
    pub const RDW_ALLCHILDREN: u32 = 0x0080;
    pub const RDW_UPDATENOW: u32 = 0x0100;
    pub const RDW_ERASENOW: u32 = 0x0200;
    pub const RDW_FRAME: u32 = 0x0400;
    pub const RDW_NOFRAME: u32 = 0x0800;

    /// The flags with bits `bits`.
    pub fn new(bits: u32) -> (r: Self)
        ensures
            r.0 == bits,
    {
        UpdateRegionFlags(bits)
    }

    /// The flags' bits.
    pub fn bits(&self) -> (r: u32)
        ensures
            r == self.0,
    {
        self.0
    }

    /// Add the bits of `flag`.
    pub fn set(&mut self, flag: u32)
        ensures
            final(self).0 == old(self).0 | flag,
    {
        self.0 = self.0 | flag;
    }

    /// Every bit of `flag` is set.
    pub fn contains(&self, flag: u32) -> (r: bool)
        ensures
            r == (self.0 & flag == flag),
    {
        (self.0 & flag) == flag
    }
}

/// Coordinate space types.
#[derive(Debug, Clone, Copy, PartialEq, Eq, Structural)]
#[allow(non_camel_case_types)]
pub enum CoordinateSpace {
    DEVICE,
    LOGICAL,
    PAGE,
    WORLD,
}

impl CoordinateSpace {
    pub open spec fn code(self) -> u32 {
        match self {
            CoordinateSpace::DEVICE => 0,
            CoordinateSpace::LOGICAL => 1,
            CoordinateSpace::PAGE => 2,
            CoordinateSpace::WORLD => 3,
        }
    }

    /// The space's number.
    pub fn value(&self) -> (r: u32)
        ensures
            r == self.code(),
    {
        match self {
            CoordinateSpace::DEVICE => 0,
            CoordinateSpace::LOGICAL => 1,
            CoordinateSpace::PAGE => 2,
            CoordinateSpace::WORLD => 3,
        }
    }
}

// =============================================================================
// BeginPaint / EndPaint
// =============================================================================

/// BeginPaint result.
#[derive(Debug, Clone, Copy)]
pub struct BeginPaintResult {
    pub hdc: u64,
    pub paint_struct: PAINTSTRUCT,
}

/// Begin painting a window: a new display DC is made (also when the window
/// does not exist, in which case the result is `None`); the paint
/// rectangle is the window's client rectangle and the background is to be
/// erased.
pub fn begin_paint(dcs: &mut DcHandleTable, primary_surface: u64, wm: &WindowManager, hwnd: u64) -> (r: Option<BeginPaintResult>)
    requires
        old(dcs).next_handle < u64::MAX,
    ensures
        final(dcs).next_handle == old(dcs).next_handle + 1,
        final(dcs).entries@.drop_last() == old(dcs).entries@,
        final(dcs).entries@.last() matches Some(d) && d.dc_type == (DC_TYPE_DISPLAY | DC_TYPE_WINDOW)
            && d.surface == primary_surface && snapshot(&d) == default_saved_state(),
        old(dcs).next_handle == 0 ==> r is None,
        old(dcs).next_handle != 0 ==> match wm.window_of(hwnd) {
            Some(w) => r matches Some(b) && b.hdc == old(dcs).next_handle && b.paint_struct.hdc == b.hdc
                && b.paint_struct.fErase && !b.paint_struct.fRestore && !b.paint_struct.fIncUpdate
                && b.paint_struct.rcPaint_left == w.client_rect.left && b.paint_struct.rcPaint_top == w.client_rect.top
                && b.paint_struct.rcPaint_right == w.client_rect.right
                && b.paint_struct.rcPaint_bottom == w.client_rect.bottom
                && forall|i: int| 0 <= i < 32 ==> b.paint_struct.rgbReserved@[i] == 0,
            None => r is None,
        },
{
    let hdc = GreCreateDisplayDC(dcs, primary_surface);
    if hdc == 0 {
        return None;
    }
    let _window_rect = match get_window_rect_internal(wm, hwnd) {
        Some(rc) => rc,
        None => {
            return None;
        },
    };
    let client_rect = match get_client_rect_internal(wm, hwnd) {
        Some(rc) => rc,
        None => {
            return None;
        },
    };
    let paint_struct = PAINTSTRUCT {
        hdc,
        fErase: true,
        rcPaint_left: client_rect.left,
        rcPaint_top: client_rect.top,
        rcPaint_right: client_rect.right,
        rcPaint_bottom: client_rect.bottom,
        fRestore: false,
        fIncUpdate: false,
        rgbReserved: [0u8; 32],
    };
    assert(forall|i: int| 0 <= i < 32 ==> paint_struct.rgbReserved@[i] == 0);
    Some(BeginPaintResult { hdc, paint_struct })
}

/// What clearing a window's paint state does: it becomes clean with no
/// dirty rectangles (nothing happens when the handle names no window).
pub open spec fn validated(a: &WindowManager, b: &WindowManager, hwnd: u64) -> bool {
    if a.has_window(hwnd) {
        window_updated(a, b, hwnd, |w: WindowObject, w2: WindowObject|
            w2 == (WindowObject { dirty: false, dirty_rects: w2.dirty_rects, ..w }) && w2.dirty_rects@.len() == 0)
    } else {
        unchanged(a, b)
    }
}

/// Make the window clean.
fn clear_dirty(wm: &mut WindowManager, hwnd: u64)
    ensures
        validated(old(wm), final(wm), hwnd),
{
    match wm.get_window_mut(hwnd) {
        Some(window) => {
            window.dirty = false;
            window.dirty_rects = Vec::new();
        },
        None => {},
    }
}

/// End painting: delete the DC and make the window clean. Always true.
pub fn end_paint(dcs: &mut DcHandleTable, wm: &mut WindowManager, hwnd: u64, hdc: u64) -> (r: bool)
    ensures
        r,
        final(dcs).next_handle == old(dcs).next_handle,
        old(dcs).dc(hdc) is Some ==> final(dcs).entries@ == old(dcs).entries@.update(dc_index(hdc), None),
        old(dcs).dc(hdc) is None ==> final(dcs).entries@ == old(dcs).entries@,
        validated(old(wm), final(wm), hwnd),
{
    let _ = GreDeleteDC(dcs, hdc);
    clear_dirty(wm, hwnd);
    true
}

// =============================================================================
// InvalidateRect / ValidateRect
// =============================================================================

/// Invalidate part of a window (`rect`, or its client area): the window
/// becomes dirty and records the rectangle. Always true; the erase flag
/// changes nothing.
pub fn invalidate_rect(wm: &mut WindowManager, hwnd: u64, rect: Option<Rect>, erase: bool) -> (r: bool)
    ensures
        r,
        invalidated(old(wm), final(wm), hwnd, rect),
{
    invalidate_rect_internal(wm, hwnd, rect);
    true
}

/// Validate a window: with no rectangle the whole window becomes clean; a
/// rectangle changes nothing. Always true.
pub fn validate_rect(wm: &mut WindowManager, hwnd: u64, rect: Option<Rect>) -> (r: bool)
    ensures
        r,
        rect is None ==> validated(old(wm), final(wm), hwnd),
        rect is Some ==> unchanged(old(wm), final(wm)),
{
    if rect.is_none() {
        clear_dirty(wm, hwnd);
    }
    true
}

// =============================================================================
// RedrawWindow / UpdateWindow
// =============================================================================

/// Repaint a window that needs it.
pub fn update_window(wm: &mut WindowManager, hwnd: u64) -> (r: bool)
    ensures
        updated_window(old(wm), final(wm), hwnd, r),
{
    update_window_internal(wm, hwnd)
}

/// The flags of `flags` that `redraw_window` acts on.
pub open spec fn has_flag(flags: u32, f: u32) -> bool {
    flags & f == f
}

/// The steps of a redraw from `a` through `m1` and `m2` to `b`:
/// invalidation (RDW_INVALIDATE), validation (RDW_VALIDATE), update
/// (RDW_UPDATENOW, whose result is `u`); a step not asked for changes
/// nothing.
pub open spec fn redraw_steps(a: WindowManager, m1: WindowManager, m2: WindowManager, b: WindowManager, hwnd: u64,
    rect: Option<Rect>, flags: u32, u: bool) -> bool {
    &&& if has_flag(flags, 0x0001) { invalidated(&a, &m1, hwnd, rect) } else { unchanged(&a, &m1) }
    &&& if has_flag(flags, 0x0008) {
        if rect is None { validated(&m1, &m2, hwnd) } else { unchanged(&m1, &m2) }
    } else {
        unchanged(&m1, &m2)
    }
    &&& if has_flag(flags, 0x0100) { updated_window(&m2, &b, hwnd, u) } else { unchanged(&m2, &b) }
}

/// Redraw a window as `flags` ask: invalidate (RDW_INVALIDATE), then
/// validate (RDW_VALIDATE), then update (RDW_UPDATENOW). Always true.
pub fn redraw_window(wm: &mut WindowManager, hwnd: u64, rect: Option<Rect>, rgn: u64, flags: u32) -> (r: bool)
    ensures
        r,
        exists|m1: WindowManager, m2: WindowManager, u: bool|
            #[trigger] redraw_steps(*old(wm), m1, m2, *final(wm), hwnd, rect, flags, u),
{
    let f = UpdateRegionFlags::new(flags);
    let ghost m0 = *wm;
    if f.contains(UpdateRegionFlags::RDW_INVALIDATE) {
        invalidate_rect(wm, hwnd, rect, f.contains(UpdateRegionFlags::RDW_ERASE));
    }
    let ghost m1 = *wm;
    if f.contains(UpdateRegionFlags::RDW_VALIDATE) {
        validate_rect(wm, hwnd, rect);
    }
    let ghost m2 = *wm;
    let mut u = false;
    if f.contains(UpdateRegionFlags::RDW_UPDATENOW) {
        u = update_window(wm, hwnd);
    }
    proof {
        assert(redraw_steps(m0, m1, m2, *wm, hwnd, rect, flags, u));
    }
    true
}

// =============================================================================
// Coordinate conversion
// =============================================================================

/// Convert a client point to screen coordinates: the window's origin is
/// added. False, with the point unchanged, when the handle names no
/// window. Results beyond 32 bits are left out.
pub fn client_to_screen(wm: &WindowManager, hwnd: u64, point: &mut POINT) -> (r: bool)
    requires
        wm.window_of(hwnd) matches Some(w) ==> i32::MIN <= old(point).x + w.rect.left <= i32::MAX
            && i32::MIN <= old(point).y + w.rect.top <= i32::MAX,
    ensures
        r == wm.has_window(hwnd),
        match wm.window_of(hwnd) {
            Some(w) => *final(point) == (POINT { x: (old(point).x + w.rect.left) as i32, y: (old(point).y + w.rect.top) as i32 }),
            None => *final(point) == *old(point),
        },
{
    match get_window_rect_internal(wm, hwnd) {
        Some(rc) => {
            point.x = point.x + rc.left;
            point.y = point.y + rc.top;
            true
        },
        None => false,
    }
}

/// Convert a screen point to client coordinates: the window's origin is
/// subtracted. False, with the point unchanged, when the handle names no
/// window. Results beyond 32 bits are left out.
pub fn screen_to_client(wm: &WindowManager, hwnd: u64, point: &mut POINT) -> (r: bool)
    requires
        wm.window_of(hwnd) matches Some(w) ==> i32::MIN <= old(point).x - w.rect.left <= i32::MAX
            && i32::MIN <= old(point).y - w.rect.top <= i32::MAX,
    ensures
        r == wm.has_window(hwnd),
        match wm.window_of(hwnd) {
            Some(w) => *final(point) == (POINT { x: (old(point).x - w.rect.left) as i32, y: (old(point).y - w.rect.top) as i32 }),
            None => *final(point) == *old(point),
        },
{
    match get_window_rect_internal(wm, hwnd) {
        Some(rc) => {
            point.x = point.x - rc.left;
            point.y = point.y - rc.top;
            true
        },
        None => false,
    }
}

/// Converting a client point to the screen and back gives the point.
pub proof fn lemma_client_screen_roundtrip(w: WindowObject, p: POINT, q: POINT, p2: POINT)
    requires
        q == (POINT { x: (p.x + w.rect.left) as i32, y: (p.y + w.rect.top) as i32 }),
        i32::MIN <= p.x + w.rect.left <= i32::MAX,
        i32::MIN <= p.y + w.rect.top <= i32::MAX,
        p2 == (POINT { x: (q.x - w.rect.left) as i32, y: (q.y - w.rect.top) as i32 }),
    ensures
        p2 == p,
{
}

/// Map points from window `hwnd_src` towards window `hwnd_dst`: each point
/// is moved by the source window's origin (the destination is not
/// subtracted). False, with the points unchanged, when either handle
/// names no window. Results beyond 32 bits are left out.
pub fn map_window_points(wm: &WindowManager, hwnd_src: u64, hwnd_dst: u64, points: &mut [POINT]) -> (r: bool)
    requires
        (wm.has_window(hwnd_src) && wm.has_window(hwnd_dst)) ==> forall|i: int| 0 <= i < old(points)@.len() ==>
            i32::MIN <= #[trigger] old(points)@[i].x + wm.window_of(hwnd_src).unwrap().rect.left <= i32::MAX
            && i32::MIN <= old(points)@[i].y + wm.window_of(hwnd_src).unwrap().rect.top <= i32::MAX,
    ensures
        r == (wm.has_window(hwnd_src) && wm.has_window(hwnd_dst)),
        final(points)@.len() == old(points)@.len(),
        r ==> forall|i: int| 0 <= i < old(points)@.len() ==> #[trigger] final(points)@[i] == (POINT {
            x: (old(points)@[i].x + wm.window_of(hwnd_src).unwrap().rect.left) as i32,
            y: (old(points)@[i].y + wm.window_of(hwnd_src).unwrap().rect.top) as i32,
        }),
        !r ==> final(points)@ == old(points)@,
{
    let src_rect = match get_window_rect_internal(wm, hwnd_src) {
        Some(rc) => rc,
        None => {
            return false;
        },
    };
    let _dst_rect = match get_window_rect_internal(wm, hwnd_dst) {
        Some(rc) => rc,
        None => {
            return false;
        },
    };
    let mut i: usize = 0;
    while i < points.len()
        invariant
            i <= points@.len(),
            points@.len() == old(points)@.len(),
            src_rect == wm.window_of(hwnd_src).unwrap().rect,
            forall|k: int| 0 <= k < old(points)@.len() ==>
                i32::MIN <= #[trigger] old(points)@[k].x + src_rect.left <= i32::MAX
                && i32::MIN <= old(points)@[k].y + src_rect.top <= i32::MAX,
            forall|k: int| 0 <= k < points@.len() ==> #[trigger] points@[k] == if k < i {
                POINT { x: (old(points)@[k].x + src_rect.left) as i32, y: (old(points)@[k].y + src_rect.top) as i32 }
            } else {
                old(points)@[k]
            },
        decreases points@.len() - i,
    {
        let p = points[i];
        points[i] = POINT { x: p.x + src_rect.left, y: p.y + src_rect.top };
        i = i + 1;
    }
    true
}

// =============================================================================
// FillRect helper
// =============================================================================

/// Fill a rectangle through a DC with its current pen and brush (as
/// `GreRectangle` draws): 0 for the null brush (0) or a missing DC, 1
/// otherwise.
pub fn fill_rect(surfaces: &mut SurfaceTable, gdi: &GdiState, dcs: &DcHandleTable, hdc: u64, rect: &Rect, hbr: u64) -> (r: i32)
    requires
        old(surfaces).wf(),
        rect_args_ok(rect.left, rect.top, rect.right, rect.bottom),
    ensures
        r == (if hbr != 0 && dcs.dc(hdc) is Some { 1i32 } else { 0i32 }),
        r == 0 ==> final(surfaces).slots@ == old(surfaces).slots@ && final(surfaces).primary == old(surfaces).primary,
        r == 1 ==> ({
            let dc = dcs.dc(hdc).unwrap();
            surface_changed(old(surfaces), final(surfaces), dc_surface_addr(&dc, old(surfaces).primary),
                |s: GdiSurface, s2: GdiSurface| if s.has_bits() {
                    rectangle_drawn(s, s2, rect.left as int, rect.top as int, rect.right as int, rect.bottom as int,
                        dc_pen_color(gdi, &dc), dc.brush != 0, dc_brush_color(gdi, &dc))
                } else {
                    s2 == s
                })
        }),
{
    if hbr == 0 {
        return 0;
    }
    match get_dc(dcs, hdc) {
        Some(dc) => {
            let _ = GreRectangle(surfaces, gdi, dc, rect.left, rect.top, rect.right, rect.bottom);
            1
        },
        None => 0,
    }
}

/// A class value of a window (background brush, cursor, icon, procedure):
/// no class record is kept here, so every value is 0.
pub fn get_class_long_ptr(hwnd: u64, index: i32) -> (r: u64)
    ensures
        r == 0,
{
    0
}

} // verus!
