//! win32k: the kernel side of the window manager and of GDI.
//!
//! This module holds the subsystem-wide types (handle entries, the simple
//! DC state, bitmap headers, window records) and the small GDI and USER
//! entry points built on them. The module-wide counters live in
//! [`Win32kGlobals`], which callers own and hand in.

pub mod objects;
pub mod dc;
pub mod surface;
pub mod gdi_ops;
pub mod ellipse;
pub mod raster;
pub mod user_objects;
pub mod window;
pub mod clipboard;
pub mod region;
pub mod paint;
pub mod text;
pub mod syscall;

use vstd::prelude::*;
use crate::win32k::objects::{HatchStyle, Rect};
use crate::win32k::raster::{r1_fits, r1_end, r2_fits, d2_init, allocate_surface, free_surface, clear_surface, fill_rect_solid, draw_line_bresenham,
    draw_ellipse, set_pixel_on_surface, get_pixel_from_surface, draw_text, apply_rop, pitch_for, ellipse_fits};

verus! {

/// win32k.sys version.
pub const WIN32K_VERSION: u32 = 0x0601_0001;

/// GDI handle types.
#[derive(Debug, Clone, Copy, PartialEq, Eq, Structural)]
pub enum GdiHandleType {
    DC,
    Bitmap,
    Palette,
    Font,
    Pen,
    ExtPen,
    Brushed,
    Region,
    Metafile,
    MetafileDC,
    EnhancedMetafileDC,
}

impl GdiHandleType {
    /// The type's number in a handle entry.
    pub open spec fn code(self) -> u8 {
        match self {
            GdiHandleType::DC => 1,
            GdiHandleType::Bitmap => 2,
            GdiHandleType::Palette => 3,
            GdiHandleType::Font => 4,
            GdiHandleType::Pen => 5,
            GdiHandleType::ExtPen => 6,
            GdiHandleType::Brushed => 7,
            GdiHandleType::Region => 8,
            GdiHandleType::Metafile => 9,
            GdiHandleType::MetafileDC => 10,
            GdiHandleType::EnhancedMetafileDC => 11,
        }
    }

    /// The type's number.
    pub fn value(&self) -> (r: u8)
        ensures
            r == self.code(),
    {
        match self {
            GdiHandleType::DC => 1,
            GdiHandleType::Bitmap => 2,
            GdiHandleType::Palette => 3,
            GdiHandleType::Font => 4,
            GdiHandleType::Pen => 5,
            GdiHandleType::ExtPen => 6,
            GdiHandleType::Brushed => 7,
            GdiHandleType::Region => 8,
            GdiHandleType::Metafile => 9,
            GdiHandleType::MetafileDC => 10,
            GdiHandleType::EnhancedMetafileDC => 11,
        }
    }
}

/// USER handle types.
#[derive(Debug, Clone, Copy, PartialEq, Eq, Structural)]
pub enum UserHandleType {
    Window,
    Menu,
    Cursor,
    Class,
    Desktop,
    Hook,
    DataTable,
    Process,
    Thread,
    Task,
    InputMethod,
    Timer,
    Icon,
}

impl UserHandleType {
    /// The type's number in a handle entry.
    pub open spec fn code(self) -> u8 {
        match self {
            UserHandleType::Window => 1,
            UserHandleType::Menu => 2,
            UserHandleType::Cursor => 3,
            UserHandleType::Class => 4,
            UserHandleType::Desktop => 5,
            UserHandleType::Hook => 6,
            UserHandleType::DataTable => 7,
            UserHandleType::Process => 8,
            UserHandleType::Thread => 9,
            UserHandleType::Task => 10,
            UserHandleType::InputMethod => 11,
            UserHandleType::Timer => 12,
            UserHandleType::Icon => 13,
        }
    }

    /// The type's number.
    pub fn value(&self) -> (r: u8)
        ensures
            r == self.code(),
    {
        match self {
            UserHandleType::Window => 1,
            UserHandleType::Menu => 2,
            UserHandleType::Cursor => 3,
            UserHandleType::Class => 4,
            UserHandleType::Desktop => 5,
            UserHandleType::Hook => 6,
            UserHandleType::DataTable => 7,
            UserHandleType::Process => 8,
            UserHandleType::Thread => 9,
            UserHandleType::Task => 10,
            UserHandleType::InputMethod => 11,
            UserHandleType::Timer => 12,
            UserHandleType::Icon => 13,
        }
    }
}

/// GDI handle entry.
pub struct GdiHandleEntry {
    pub handle_type: u8,
    pub flags: u8,
    pub process_id: u32,
    pub thread_id: u32,
    pub kernel_address: u64,
}

impl GdiHandleEntry {
    /// An entry of type `htype` owned by `pid`/`tid`, with no flags and no
    /// kernel object yet.
    pub fn new(htype: GdiHandleType, pid: u32, tid: u32) -> (r: Self)
        ensures
            r.handle_type == htype.code(),
            r.flags == 0 && r.process_id == pid && r.thread_id == tid && r.kernel_address == 0,
    {
        GdiHandleEntry { handle_type: htype.value(), flags: 0, process_id: pid, thread_id: tid, kernel_address: 0 }
    }
}

/// USER handle entry.
pub struct UserHandleEntry {
    pub handle_type: u8,
    pub flags: u8,
    pub process_id: u32,
    pub thread_id: u32,
    pub kernel_address: u64,
}

impl UserHandleEntry {
    /// An entry of type `htype` owned by `pid`/`tid`, with no flags and no
    /// kernel object yet.
    pub fn new(htype: UserHandleType, pid: u32, tid: u32) -> (r: Self)
        ensures
            r.handle_type == htype.code(),
            r.flags == 0 && r.process_id == pid && r.thread_id == tid && r.kernel_address == 0,
    {
        UserHandleEntry { handle_type: htype.value(), flags: 0, process_id: pid, thread_id: tid, kernel_address: 0 }
    }
}

// =============================================================================
// GDI
// =============================================================================

/// Device context state.
#[derive(Debug, Clone, Copy)]
pub struct DCState {
    /// DC type (DC, memory DC, ...).
    pub dc_type: GdiHandleType,
    /// Surface or bitmap associated with the DC.
    pub surface: u64,
    /// Clipping region.
    pub clip_region: u64,
    /// Current pen.
    pub pen: u64,
    /// Current brush.
    pub brush: u64,
    /// Current palette.
    pub palette: u64,
    /// Current font.
    pub font: u64,
    /// Background colour (BGR).
    pub background_color: u32,
    /// Text colour (BGR).
    pub text_color: u32,
    /// Raster operation mode.
    pub rop_mode: u32,
    /// Stretch mode.
    pub stretch_mode: u32,
}

/// A fresh DC state of type `t`: no objects selected, white background,
/// black text, SRCCOPY, BLACKONWHITE stretching.
pub open spec fn fresh_dc_state(t: GdiHandleType) -> DCState {
    DCState {
        dc_type: t,
        surface: 0,
        clip_region: 0,
        pen: 0,
        brush: 0,
        palette: 0,
        font: 0,
        background_color: 0x00FFFFFF,
        text_color: 0,
        rop_mode: 0xCC,
        stretch_mode: 0,
    }
}

impl DCState {
    /// A fresh display DC state.
    pub fn new() -> (r: Self)
        ensures
            r == fresh_dc_state(GdiHandleType::DC),
    {
        DCState {
            dc_type: GdiHandleType::DC,
            surface: 0,
            clip_region: 0,
            pen: 0,
            brush: 0,
            palette: 0,
            font: 0,
            background_color: 0x00FFFFFF,
            text_color: 0x00000000,
            rop_mode: 0xCC,
            stretch_mode: 0,
        }
    }
}

/// Bitmap info header (BITMAPINFOHEADER).
pub struct BitmapInfoHeader {
    pub size: u32,
    pub width: i32,
    pub height: i32,
    pub planes: u16,
    pub bit_count: u16,
    pub compression: u32,
    pub image_size: u32,
    pub x_pels_per_meter: i32,
    pub y_pels_per_meter: i32,
    pub colors_used: u32,
    pub colors_important: u32,
}

pub open spec fn iabs(v: int) -> int {
    if v < 0 { -v } else { v }
}

/// The header fits: the image size in bits, `|width| * |height| *
/// bit_count`, is representable in 32 signed bits.
pub open spec fn bitmap_size_fits(width: i32, height: i32, bit_count: u16) -> bool {
    &&& width != i32::MIN && height != i32::MIN
    &&& iabs(width as int) * iabs(height as int) <= i32::MAX
    &&& iabs(width as int) * iabs(height as int) * bit_count <= i32::MAX
}

/// The header `BitmapInfoHeader::new(width, height, bit_count)` builds.
pub open spec fn bitmap_header(h: BitmapInfoHeader, width: i32, height: i32, bit_count: u16) -> bool {
    &&& h.size == 40 && h.width == width && h.height == height && h.planes == 1
    &&& h.bit_count == bit_count && h.compression == 0
    &&& h.image_size == iabs(width as int) * iabs(height as int) * bit_count / 8
    &&& h.x_pels_per_meter == 0 && h.y_pels_per_meter == 0
    &&& h.colors_used == 0 && h.colors_important == 0
}

impl BitmapInfoHeader {
    /// An uncompressed header for a `width` x `height` bitmap of
    /// `bit_count` bits per pixel; the image size is the pixel bits over 8.
    pub fn new(width: i32, height: i32, bit_count: u16) -> (r: Self)
        requires
            bitmap_size_fits(width, height, bit_count),
        ensures
            bitmap_header(r, width, height, bit_count),
    {
        let aw: i32 = if width < 0 { -width } else { width };
        let ah: i32 = if height < 0 { -height } else { height };
        let area: i32 = aw * ah;
        let bits: i32 = area * (bit_count as i32);
        BitmapInfoHeader {
            size: 40,
            width,
            height,
            planes: 1,
            bit_count,
            compression: 0,
            image_size: (bits / 8) as u32,
            x_pels_per_meter: 0,
            y_pels_per_meter: 0,
            colors_used: 0,
            colors_important: 0,
        }
    }
}

/// Palette entry.
#[derive(Clone, Copy)]
pub struct PaletteEntry {
    pub red: u8,
    pub green: u8,
    pub blue: u8,
    pub flags: u8,
}

// =============================================================================
// USER
// =============================================================================

/// Window class styles.
#[derive(Debug, Clone, Copy)]
#[allow(non_camel_case_types)]
pub enum WindowClassStyle {
    VREDRAW,
    HREDRAW,
    OWNDC,
    CLASSDCE,
    PARENTDC,
    NOKEYBOARD,
    NESTEDATAPIC,
    GLOBALCLASS,
}

impl WindowClassStyle {
    /// The style's bit.
    pub open spec fn code(self) -> u32 {
        match self {
            WindowClassStyle::VREDRAW => 0x0001,
            WindowClassStyle::HREDRAW => 0x0002,
            WindowClassStyle::OWNDC => 0x0020,
            WindowClassStyle::CLASSDCE => 0x0040,
            WindowClassStyle::PARENTDC => 0x0080,
            WindowClassStyle::NOKEYBOARD => 0x0100,
            WindowClassStyle::NESTEDATAPIC => 0x0200,
            WindowClassStyle::GLOBALCLASS => 0x0400,
        }
    }

    /// The style's bit.
    pub fn value(&self) -> (r: u32)
        ensures
            r == self.code(),
    {
        match self {
            WindowClassStyle::VREDRAW => 0x0001,
            WindowClassStyle::HREDRAW => 0x0002,
            WindowClassStyle::OWNDC => 0x0020,
            WindowClassStyle::CLASSDCE => 0x0040,
            WindowClassStyle::PARENTDC => 0x0080,
            WindowClassStyle::NOKEYBOARD => 0x0100,
            WindowClassStyle::NESTEDATAPIC => 0x0200,
            WindowClassStyle::GLOBALCLASS => 0x0400,
        }
    }
}

/// Window styles.
#[derive(Debug, Clone, Copy)]
#[allow(non_camel_case_types)]
pub enum WindowStyle {
    OVERLAPPED,
    POPUP,
    CHILD,
    MINIMIZE,
    VISIBLE,
    DISABLED,
    CLIPSIBLINGS,
    CLIPCHILDREN,
    MAXIMIZE,
    CAPTION,
    SYSMENU,
    THICKFRAME,
    MINIMIZEBOX,
    MAXIMIZEBOX,
}

impl WindowStyle {
    /// The style's bits.
    pub open spec fn code(self) -> u32 {
        match self {
            WindowStyle::OVERLAPPED => 0x00000000,
            WindowStyle::POPUP => 0x80000000,
            WindowStyle::CHILD => 0x40000000,
            WindowStyle::MINIMIZE => 0x20000000,
            WindowStyle::VISIBLE => 0x10000000,
            WindowStyle::DISABLED => 0x08000000,
            WindowStyle::CLIPSIBLINGS => 0x04000000,
            WindowStyle::CLIPCHILDREN => 0x02000000,
            WindowStyle::MAXIMIZE => 0x01000000,
            WindowStyle::CAPTION => 0x00C00000,
            WindowStyle::SYSMENU => 0x00080000,
            WindowStyle::THICKFRAME => 0x00040000,
            WindowStyle::MINIMIZEBOX => 0x00020000,
            WindowStyle::MAXIMIZEBOX => 0x00010000,
        }
    }

    /// The style's bits.
    pub fn value(&self) -> (r: u32)
        ensures
            r == self.code(),
    {
        match self {
            WindowStyle::OVERLAPPED => 0x00000000,
            WindowStyle::POPUP => 0x80000000,
            WindowStyle::CHILD => 0x40000000,
            WindowStyle::MINIMIZE => 0x20000000,
            WindowStyle::VISIBLE => 0x10000000,
            WindowStyle::DISABLED => 0x08000000,
            WindowStyle::CLIPSIBLINGS => 0x04000000,
            WindowStyle::CLIPCHILDREN => 0x02000000,
            WindowStyle::MAXIMIZE => 0x01000000,
            WindowStyle::CAPTION => 0x00C00000,
            WindowStyle::SYSMENU => 0x00080000,
            WindowStyle::THICKFRAME => 0x00040000,
            WindowStyle::MINIMIZEBOX => 0x00020000,
            WindowStyle::MAXIMIZEBOX => 0x00010000,
        }
    }
}

/// Window info.
#[derive(Debug, Clone, Copy)]
pub struct WindowInfo {
    pub handle: u64,
    pub parent: u64,
    pub owner: u64,
    pub style: u32,
    pub x: i32,
    pub y: i32,
    pub width: i32,
    pub height: i32,
    pub client_x: i32,
    pub client_y: i32,
    pub client_width: i32,
    pub client_height: i32,
}

impl WindowInfo {
    /// An 800 x 600 window at the origin with handle `hwnd`, no parent,
    /// owner or style, whose client area is the whole window.
    pub fn new(hwnd: u64) -> (r: Self)
        ensures
            r == (WindowInfo {
                handle: hwnd, parent: 0, owner: 0, style: 0, x: 0, y: 0, width: 800, height: 600,
                client_x: 0, client_y: 0, client_width: 800, client_height: 600,
            }),
    {
        WindowInfo {
            handle: hwnd,
            parent: 0,
            owner: 0,
            style: 0,
            x: 0,
            y: 0,
            width: 800,
            height: 600,
            client_x: 0,
            client_y: 0,
            client_width: 800,
            client_height: 600,
        }
    }
}

/// Window class info.
#[derive(Debug, Clone, Copy)]
pub struct WindowClass {
    pub name: [u16; 256],
    pub style: u32,
    pub proc: u64,
    pub instance: u64,
    pub background: u64,
    pub cursor: u64,
    pub icon: u64,
}

impl WindowClass {
    /// A class with an empty (all-zero) name and every field 0.
    pub fn new() -> (r: Self)
        ensures
            r.name@.len() == 256,
            forall|i: int| 0 <= i < 256 ==> r.name@[i] == 0,
            r.style == 0 && r.proc == 0 && r.instance == 0 && r.background == 0,
            r.cursor == 0 && r.icon == 0,
    {
        WindowClass { name: [0u16; 256], style: 0, proc: 0, instance: 0, background: 0, cursor: 0, icon: 0 }
    }
}

/// Driver functions table (DRIVERFN).
pub struct DriverFunctions {
    pub version: u32,
    pub caps: u32,
}

// =============================================================================
// Subsystem state
// =============================================================================

/// The counters and flags that win32k keeps for the whole subsystem.
pub struct Win32kGlobals {
    pub initialized: bool,
    pub next_gdi_handle: u64,
}

impl Win32kGlobals {
    /// The state at boot: not initialised, GDI handles counted from
    /// `0x4000_0000`.
    pub fn new() -> (r: Self)
        ensures
            !r.initialized && r.next_gdi_handle == 0x4000_0000,
    {
        Win32kGlobals { initialized: false, next_gdi_handle: 0x4000_0000 }
    }
}

/// Whether win32k has been initialised.
pub fn is_initialized(g: &Win32kGlobals) -> (r: bool)
    ensures
        r == g.initialized,
{
    g.initialized
}

// =============================================================================
// GDI functions
// =============================================================================

/// Create a device context.
pub fn create_dc() -> (r: Option<DCState>)
    ensures
        r == Some(fresh_dc_state(GdiHandleType::DC)),
{
    let mut dc = DCState::new();
    dc.dc_type = GdiHandleType::DC;
    Some(dc)
}

/// Create a compatible (memory) device context.
pub fn create_compatible_dc() -> (r: Option<DCState>)
    ensures
        r == Some(fresh_dc_state(GdiHandleType::EnhancedMetafileDC)),
{
    let mut dc = DCState::new();
    dc.dc_type = GdiHandleType::EnhancedMetafileDC;
    Some(dc)
}

/// Delete a DC: there is nothing to release, and it always succeeds.
pub fn delete_dc(dc: &DCState) -> (r: bool)
    ensures
        r,
{
    true
}

/// Allocate a GDI handle: the next value of the subsystem counter, which
/// then moves on by one (wrapping).
pub fn allocate_gdi_handle(g: &mut Win32kGlobals, htype: GdiHandleType, pid: u32) -> (r: u64)
    ensures
        r == old(g).next_gdi_handle,
        final(g).next_gdi_handle == old(g).next_gdi_handle.wrapping_add(1),
        final(g).initialized == old(g).initialized,
{
    let handle = g.next_gdi_handle;
    g.next_gdi_handle = g.next_gdi_handle.wrapping_add(1);
    handle
}

/// Free a GDI handle: always succeeds.
pub fn free_gdi_handle(handle: u64) -> (r: bool)
    ensures
        r,
{
    true
}

/// Build a bitmap info header.
pub fn create_bitmap_info(width: i32, height: i32, bit_count: u16) -> (r: BitmapInfoHeader)
    requires
        bitmap_size_fits(width, height, bit_count),
    ensures
        bitmap_header(r, width, height, bit_count),
{
    BitmapInfoHeader::new(width, height, bit_count)
}

/// Pen styles.
#[derive(Debug, Clone, Copy)]
pub enum PenStyle {
    Solid,
    Dash,
    Dot,
    DashDot,
    DashDotDot,
}

/// Create a pen: always succeeds.
pub fn create_pen(style: PenStyle, width: i32, color: u32) -> (r: bool)
    ensures
        r,
{
    true
}

/// Select a pen into a DC, giving back the pen selected before.
pub fn select_pen(dc: &mut DCState, pen: u64) -> (r: u64)
    ensures
        r == old(dc).pen,
        *final(dc) == (DCState { pen, ..*old(dc) }),
{
    let old_pen = dc.pen;
    dc.pen = pen;
    old_pen
}

/// Create a solid brush: always succeeds.
pub fn create_solid_brush(color: u32) -> (r: bool)
    ensures
        r,
{
    true
}

/// Create a hatched brush: always succeeds.
pub fn create_hatch_brush(style: HatchStyle, color: u32) -> (r: bool)
    ensures
        r,
{
    true
}

/// Select a brush into a DC, giving back the brush selected before.
pub fn select_brush(dc: &mut DCState, brush: u64) -> (r: u64)
    ensures
        r == old(dc).brush,
        *final(dc) == (DCState { brush, ..*old(dc) }),
{
    let old_brush = dc.brush;
    dc.brush = brush;
    old_brush
}

/// Build a bitmap info header; `None` when the width is not positive or
/// the height is 0.
pub fn create_bitmap(width: i32, height: i32, bit_count: u16) -> (r: Option<BitmapInfoHeader>)
    requires
        bitmap_size_fits(width, height, bit_count),
    ensures
        (width <= 0 || height == 0) <==> r is None,
        r matches Some(h) ==> bitmap_header(h, width, height, bit_count),
{
    if width <= 0 || height == 0 {
        return None;
    }
    Some(BitmapInfoHeader::new(width, height, bit_count))
}

/// The style every window made by `create_window` gets: caption, sizing
/// frame, minimise and maximise boxes.
pub open spec fn created_window_style() -> u32 {
    0x00C70000u32
}

/// Create a window record at `(x, y)` of `width` x `height`, whose client
/// area is the whole window; the class name and title are not kept.
pub fn create_window(class_name: &[u16], title: &[u16], x: i32, y: i32, width: i32, height: i32) -> (r: WindowInfo)
    ensures
        r == (WindowInfo {
            handle: 0, parent: 0, owner: 0, style: created_window_style(), x, y, width, height,
            client_x: 0, client_y: 0, client_width: width, client_height: height,
        }),
{
    let mut info = WindowInfo::new(0);
    info.x = x;
    info.y = y;
    info.width = width;
    info.height = height;
    info.client_width = width;
    info.client_height = height;
    info.style = WindowStyle::CAPTION.value() | WindowStyle::THICKFRAME.value() | WindowStyle::MINIMIZEBOX.value()
        | WindowStyle::MAXIMIZEBOX.value();
    assert(0x00C00000u32 | 0x00040000u32 | 0x00020000u32 | 0x00010000u32 == 0x00C70000u32) by (bit_vector);
    info
}

// =============================================================================
// Graphics engine
// =============================================================================

/// Graphics engine function table.
pub struct GraphicsEngine {
    pub version: u32,
}

impl GraphicsEngine {
    /// The engine table of this win32k version.
    pub fn new() -> (r: Self)
        ensures
            r.version == WIN32K_VERSION,
    {
        GraphicsEngine { version: WIN32K_VERSION }
    }
}

/// Line drawing mode.
#[derive(Debug, Clone, Copy)]
pub enum LineMode {
    Solid,
    Dash,
    Dot,
    DashDot,
    DashDotDot,
}

/// Point structure for graphics operations.
#[derive(Clone, Copy)]
pub struct Point {
    pub x: i32,
    pub y: i32,
}

/// Draw a line through a DC handle: the handle names no surface here, so
/// nothing is drawn.
pub fn draw_line(dc: u64, x1: i32, y1: i32, x2: i32, y2: i32, color: u32) {
}

/// Fill a rectangle through a DC handle: the handle names no surface here,
/// so nothing is drawn.
pub fn fill_rect(dc: u64, rect: &Rect, color: u32) {
}

/// Block transfer between DC handles: reported as done.
pub fn bit_blt(dst_dc: u64, dst_x: i32, dst_y: i32, width: i32, height: i32, src_dc: u64, src_x: i32, src_y: i32, rop: u32) -> (r: bool)
    ensures
        r,
{
    true
}

/// Stretching block transfer between DC handles: reported as done.
pub fn stretch_blt(dst_dc: u64, dst_rect: &Rect, src_dc: u64, src_rect: &Rect, rop: u32) -> (r: bool)
    ensures
        r,
{
    true
}

/// Parallelogram block transfer between DC handles: reported as done.
pub fn plg_blt(dst_dc: u64, dst_points: &[Point; 3], src_dc: u64, src_rect: &Rect, rop: u32) -> (r: bool)
    ensures
        r,
{
    true
}

/// Text output through a DC handle: the handle names no surface here, so
/// nothing is drawn.
pub fn text_out(dc: u64, x: i32, y: i32, text: &[u16]) {
}

/// Read a pixel through a DC handle: no surface, so 0.
pub fn get_pixel(dc: u64, x: i32, y: i32) -> (r: u32)
    ensures
        r == 0,
{
    0
}

/// Set a pixel through a DC handle: gives back the colour asked for.
pub fn set_pixel(dc: u64, x: i32, y: i32, color: u32) -> (r: u32)
    ensures
        r == color,
{
    color
}

/// Pixel format.
#[derive(Debug, Clone, Copy, PartialEq, Eq, Structural)]
pub enum PixelFormat {
    Indexed1,
    Indexed4,
    Indexed8,
    Rgb16,
    Rgb24,
    Rgb32,
}

impl PixelFormat {
    /// Bits per pixel.
    pub open spec fn code(self) -> u32 {
        match self {
            PixelFormat::Indexed1 => 1,
            PixelFormat::Indexed4 => 4,
            PixelFormat::Indexed8 => 8,
            PixelFormat::Rgb16 => 16,
            PixelFormat::Rgb24 => 24,
            PixelFormat::Rgb32 => 32,
        }
    }

    /// Bits per pixel.
    pub fn value(&self) -> (r: u32)
        ensures
            r == self.code(),
    {
        match self {
            PixelFormat::Indexed1 => 1,
            PixelFormat::Indexed4 => 4,
            PixelFormat::Indexed8 => 8,
            PixelFormat::Rgb16 => 16,
            PixelFormat::Rgb24 => 24,
            PixelFormat::Rgb32 => 32,
        }
    }
}

/// Pack red, green and blue into a Windows colour (`0x00BBGGRR`).
pub fn rgb_to_bgr(r: u8, g: u8, b: u8) -> (c: u32)
    ensures
        c == b as int * 0x10000 + g as int * 0x100 + r as int,
{
    let c: u32 = ((b as u32) << 16) | ((g as u32) << 8) | (r as u32);
    let (rr, gg, bb) = (r as u32, g as u32, b as u32);
    assert(rr < 256 && gg < 256 && bb < 256);
    assert((bb << 16) | (gg << 8) | rr == bb * 0x10000 + gg * 0x100 + rr) by (bit_vector)
        requires
            rr < 256 && gg < 256 && bb < 256,
    ;
    c
}

/// Raster operation codes.
#[derive(Debug, Clone, Copy)]
#[allow(non_camel_case_types)]
pub enum RasterOp {
    SRCCOPY,
    SRCPAINT,
    SRCAND,
    SRCINVERT,
    DSTINVERT,
    BLACKNESS,
    WHITENESS,
}

impl RasterOp {
    /// The operation's code.
    pub open spec fn code(self) -> u32 {
        match self {
            RasterOp::SRCCOPY => 0x00CC0020,
            RasterOp::SRCPAINT => 0x00EE0086,
            RasterOp::SRCAND => 0x008800C6,
            RasterOp::SRCINVERT => 0x00660046,
            RasterOp::DSTINVERT => 0x00550009,
            RasterOp::BLACKNESS => 0x00000042,
            RasterOp::WHITENESS => 0x00FF0062,
        }
    }

    /// The operation's code.
    pub fn value(&self) -> (r: u32)
        ensures
            r == self.code(),
    {
        match self {
            RasterOp::SRCCOPY => 0x00CC0020,
            RasterOp::SRCPAINT => 0x00EE0086,
            RasterOp::SRCAND => 0x008800C6,
            RasterOp::SRCINVERT => 0x00660046,
            RasterOp::DSTINVERT => 0x00550009,
            RasterOp::BLACKNESS => 0x00000042,
            RasterOp::WHITENESS => 0x00FF0062,
        }
    }
}

// =============================================================================
// Self test
// =============================================================================

/// The ellipse of the self test stays within 32-bit arithmetic.
proof fn lemma_smoke_ellipse_fits()
    ensures
        ellipse_fits(50, 50, 30, 20),
{
    assert(r1_fits(50, 50, 30, 20, 25, 11, 9625));
    assert(r1_end(30, 20, 25, 11, 9625) == (25int, 11int, 9625int));
    assert(r1_fits(50, 50, 30, 20, 24, 12, 9025));
    assert(r1_end(30, 20, 24, 12, 9025) == (25int, 11int, 9625int));
    assert(r1_fits(50, 50, 30, 20, 23, 13, 11025));
    assert(r1_end(30, 20, 23, 13, 11025) == (25int, 11int, 9625int));
    assert(r1_fits(50, 50, 30, 20, 22, 14, 15625));
    assert(r1_end(30, 20, 22, 14, 15625) == (25int, 11int, 9625int));
    assert(r1_fits(50, 50, 30, 20, 21, 14, -2375));
    assert(r1_end(30, 20, 21, 14, -2375) == (25int, 11int, 9625int));
    assert(r1_fits(50, 50, 30, 20, 20, 15, 5625));
    assert(r1_end(30, 20, 20, 15, 5625) == (25int, 11int, 9625int));
    assert(r1_fits(50, 50, 30, 20, 19, 15, -10775));
    assert(r1_end(30, 20, 19, 15, -10775) == (25int, 11int, 9625int));
    assert(r1_fits(50, 50, 30, 20, 18, 16, 625));
    assert(r1_end(30, 20, 18, 16, 625) == (25int, 11int, 9625int));
    assert(r1_fits(50, 50, 30, 20, 17, 16, -14175));
    assert(r1_end(30, 20, 17, 16, -14175) == (25int, 11int, 9625int));
    assert(r1_fits(50, 50, 30, 20, 16, 17, 625));
    assert(r1_end(30, 20, 16, 17, 625) == (25int, 11int, 9625int));
    assert(r1_fits(50, 50, 30, 20, 15, 17, -12575));
    assert(r1_end(30, 20, 15, 17, -12575) == (25int, 11int, 9625int));
    assert(r1_fits(50, 50, 30, 20, 14, 18, 5625));
    assert(r1_end(30, 20, 14, 18, 5625) == (25int, 11int, 9625int));
    assert(r1_fits(50, 50, 30, 20, 13, 18, -5975));
    assert(r1_end(30, 20, 13, 18, -5975) == (25int, 11int, 9625int));
    assert(r1_fits(50, 50, 30, 20, 12, 18, -16775));
    assert(r1_end(30, 20, 12, 18, -16775) == (25int, 11int, 9625int));
    assert(r1_fits(50, 50, 30, 20, 11, 19, 5625));
    assert(r1_end(30, 20, 11, 19, 5625) == (25int, 11int, 9625int));
    assert(r1_fits(50, 50, 30, 20, 10, 19, -3575));
    assert(r1_end(30, 20, 10, 19, -3575) == (25int, 11int, 9625int));
    assert(r1_fits(50, 50, 30, 20, 9, 19, -11975));
    assert(r1_end(30, 20, 9, 19, -11975) == (25int, 11int, 9625int));
    assert(r1_fits(50, 50, 30, 20, 8, 19, -19575));
    assert(r1_end(30, 20, 8, 19, -19575) == (25int, 11int, 9625int));
    assert(r1_fits(50, 50, 30, 20, 7, 19, -26375));
    assert(r1_end(30, 20, 7, 19, -26375) == (25int, 11int, 9625int));
    assert(r1_fits(50, 50, 30, 20, 6, 20, 1825));
    assert(r1_end(30, 20, 6, 20, 1825) == (25int, 11int, 9625int));
    assert(r1_fits(50, 50, 30, 20, 5, 20, -3375));
    assert(r1_end(30, 20, 5, 20, -3375) == (25int, 11int, 9625int));
    assert(r1_fits(50, 50, 30, 20, 4, 20, -7775));
    assert(r1_end(30, 20, 4, 20, -7775) == (25int, 11int, 9625int));
    assert(r1_fits(50, 50, 30, 20, 3, 20, -11375));
    assert(r1_end(30, 20, 3, 20, -11375) == (25int, 11int, 9625int));
    assert(r1_fits(50, 50, 30, 20, 2, 20, -14175));
    assert(r1_end(30, 20, 2, 20, -14175) == (25int, 11int, 9625int));
    assert(r1_fits(50, 50, 30, 20, 1, 20, -16175));
    assert(r1_end(30, 20, 1, 20, -16175) == (25int, 11int, 9625int));
    assert(r1_fits(50, 50, 30, 20, 0, 20, -17375));
    assert(r1_end(30, 20, 0, 20, -17375) == (25int, 11int, 9625int));
    assert(r2_fits(50, 50, 30, 20, 32, -1, 27300));
    assert(r2_fits(50, 50, 30, 20, 32, 0, 24600));
    assert(r2_fits(50, 50, 30, 20, 31, 1, -600));
    assert(r2_fits(50, 50, 30, 20, 31, 2, 300));
    assert(r2_fits(50, 50, 30, 20, 31, 3, 3000));
    assert(r2_fits(50, 50, 30, 20, 31, 4, 7500));
    assert(r2_fits(50, 50, 30, 20, 31, 5, 13800));
    assert(r2_fits(50, 50, 30, 20, 30, 6, -1600));
    assert(r2_fits(50, 50, 30, 20, 29, 7, -14400));
    assert(r2_fits(50, 50, 30, 20, 28, 8, -24600));
    assert(r2_fits(50, 50, 30, 20, 27, 9, -32200));
    assert(r2_fits(50, 50, 30, 20, 26, 10, -37200));
    assert(r2_fits(50, 50, 30, 20, 25, 11, -39600));
    assert(d2_init(30, 20, 25, 11) == -39600);
}

// =============================================================================
// Self test (body)
// =============================================================================

/// Exercise the GDI and USER entry points on fresh objects: DCs, a bitmap
/// header, surfaces with clearing, filling, lines, an ellipse, a pixel and
/// text, a GDI handle, a brush and a window. The handle comes from the
/// subsystem counter, which moves on by one; every other step succeeds,
/// so the check passes unless the counter handed out 0.
pub fn smoke_test(g: &mut Win32kGlobals) -> (r: bool)
    ensures
        r == (old(g).next_gdi_handle != 0),
        final(g).next_gdi_handle == old(g).next_gdi_handle.wrapping_add(1),
        final(g).initialized == old(g).initialized,
{
    let mut all_ok = true;

    let dc = create_dc();
    if dc.is_none() {
        all_ok = false;
    }
    let comp_dc = create_compatible_dc();
    if comp_dc.is_none() {
        all_ok = false;
    }
    assert(iabs(800) == 800 && iabs(600) == 600);
    assert(bitmap_size_fits(800, 600, 32));
    let _bitmap = create_bitmap_info(800, 600, 32);

    assert(pitch_for(640) == 2560 && pitch_for(100) == 400);
    let surface = allocate_surface(640, 480, 0x263);
    match surface {
        Some(mut s) => {
            free_surface(&mut s);
        },
        None => {
            all_ok = false;
        },
    }

    let test_surface = allocate_surface(100, 100, 0x263);
    if let Some(mut surf) = test_surface {
        clear_surface(&mut surf, 0x00000000);
        fill_rect_solid(&mut surf, 10, 10, 90, 90, 0x00FF0000);
        draw_line_bresenham(&mut surf, 0, 0, 99, 99, 0x0000FF00);
        proof {
            lemma_smoke_ellipse_fits();
        }
        draw_ellipse(&mut surf, 50, 50, 30, 20, 0x000000FF);
        let _ = set_pixel_on_surface(&mut surf, 5, 5, 0x00FF00FF);
        let _pixel = get_pixel_from_surface(&surf, 5, 5);
        let hello: [u8; 5] = [0x48, 0x65, 0x6C, 0x6C, 0x6F];
        assert(hello@ =~= seq![0x48u8, 0x65, 0x6C, 0x6C, 0x6F]);
        let _ = draw_text(&mut surf, 5, 5, &hello, 0x00FFFFFF, 0x00000000);
        free_surface(&mut surf);
    }

    let handle = allocate_gdi_handle(g, GdiHandleType::DC, 0);
    if handle != 0 {
        free_gdi_handle(handle);
    } else {
        all_ok = false;
    }

    let _ = create_hatch_brush(HatchStyle::Cross, 0x00FF00);

    let empty: [u16; 2] = [0, 0];
    let window = create_window(&empty, &empty, 100, 100, 640, 480);
    if !(window.width == 640 && window.height == 480) {
        all_ok = false;
    }

    let _ = apply_rop(0x12345678, 0xABCDEF00, RasterOp::SRCCOPY.value());
    all_ok
}

} // verus!
