//! Window entry points of user32. Windows are placeholders from the
//! window table; the message functions here report an empty queue.

use vstd::prelude::*;
use crate::user32::types::{BOOL, TRUE, FALSE, HWND, WPARAM, LPARAM, DWORD, HANDLE};
use crate::user32::{WindowTable, WINDOW_HANDLE_BASE, alloc_window_handle, has_window_handle};

verus! {

pub const WS_OVERLAPPED: u32 = 0x0000_0000;
pub const WS_CAPTION: u32 = 0x00C0_0000;
pub const WS_SYSMENU: u32 = 0x0008_0000;
pub const WS_THICKFRAME: u32 = 0x0004_0000;
pub const WS_MINIMIZEBOX: u32 = 0x0002_0000;
pub const WS_MAXIMIZEBOX: u32 = 0x0001_0000;
pub const WS_VISIBLE: u32 = 0x1000_0000;
pub const WS_CHILD: u32 = 0x4000_0000;
pub const WS_POPUP: u32 = 0x8000_0000;

pub const WM_NULL: u32 = 0x0000;
pub const WM_CREATE: u32 = 0x0001;
pub const WM_DESTROY: u32 = 0x0002;
pub const WM_PAINT: u32 = 0x000F;
pub const WM_CLOSE: u32 = 0x0010;
pub const WM_QUIT: u32 = 0x0012;
pub const WM_KEYDOWN: u32 = 0x0100;
pub const WM_KEYUP: u32 = 0x0101;
pub const WM_CHAR: u32 = 0x0102;
pub const WM_MOUSEMOVE: u32 = 0x0200;
pub const WM_LBUTTONDOWN: u32 = 0x0201;
pub const WM_LBUTTONUP: u32 = 0x0202;
pub const WM_USER: u32 = 0x0400;

pub const CS_VREDRAW: u32 = 0x0001;
pub const CS_HREDRAW: u32 = 0x0002;
pub const CS_DBLCLKS: u32 = 0x0008;
pub const CS_OWNDC: u32 = 0x0020;
pub const CS_CLASSDC: u32 = 0x0040;
pub const CS_PARENTDC: u32 = 0x0080;
pub const CS_GLOBALCLASS: u32 = 0x4000;

pub const SW_HIDE: i32 = 0;
pub const SW_SHOWNORMAL: i32 = 1;
pub const SW_NORMAL: i32 = 1;
pub const SW_SHOWMINIMIZED: i32 = 2;
pub const SW_SHOWMAXIMIZED: i32 = 3;
pub const SW_MAXIMIZE: i32 = 3;
pub const SW_SHOWNOACTIVATE: i32 = 4;
pub const SW_SHOW: i32 = 5;
pub const SW_MINIMIZE: i32 = 6;
pub const SW_SHOWMINNOACTIVE: i32 = 7;
pub const SW_SHOWNA: i32 = 8;
pub const SW_RESTORE: i32 = 9;

/// A message as user32's window functions hand it out.
#[derive(Clone, Copy)]
pub struct Msg {
    pub hwnd: HWND,
    pub message: u32,
    pub wparam: WPARAM,
    pub lparam: LPARAM,
    pub time: u32,
    pub pt_x: i32,
    pub pt_y: i32,
    pub lprivate: u32,
}

/// A message with every field zero.
pub open spec fn zero_msg(m: Msg) -> bool {
    m.hwnd == 0 && m.message == 0 && m.wparam == 0 && m.lparam == 0 && m.time == 0 && m.pt_x == 0
        && m.pt_y == 0 && m.lprivate == 0
}

fn zeroed_msg() -> (r: Msg)
    ensures
        zero_msg(r),
{
    Msg { hwnd: 0, message: 0, wparam: 0, lparam: 0, time: 0, pt_x: 0, pt_y: 0, lprivate: 0 }
}

/// Create a window: a new placeholder window from the table; the
/// arguments play no part.
#[allow(non_snake_case)]
pub fn CreateWindowExW(windows: &mut WindowTable, ex_style: DWORD, class_name: u64, window_name: u64, style: DWORD,
    x: i32, y: i32, width: i32, height: i32, parent: HWND, menu: HANDLE, instance: HANDLE, param: u64) -> (r: HWND)
    requires
        old(windows).wf(),
        old(windows).handles@.len() + 1 < 0x1_0000_0000,
    ensures
        final(windows).wf(),
        r == WINDOW_HANDLE_BASE + old(windows).handles@.len(),
        final(windows).handles@ == old(windows).handles@.push(r),
{
    alloc_window_handle(windows)
}

/// The default window procedure: 0 for every message.
#[allow(non_snake_case)]
pub fn DefWindowProcW(hwnd: HWND, msg: u32, w: WPARAM, l: LPARAM) -> (r: isize)
    ensures
        r == 0,
{
    0
}

/// Destroy a window: a live window's slot is released (it no longer names
/// a window) and the answer is `TRUE`; any other handle gives `FALSE` and
/// changes nothing.
#[allow(non_snake_case)]
pub fn DestroyWindow(windows: &mut WindowTable, hwnd: HWND) -> (r: BOOL)
    requires
        old(windows).wf(),
    ensures
        final(windows).wf(),
        r == (if hwnd != 0 && old(windows).handles@.contains(hwnd) { TRUE } else { FALSE }),
        r == TRUE ==> final(windows).handles@ == old(windows).handles@.update(hwnd - WINDOW_HANDLE_BASE, 0),
        r == FALSE ==> final(windows).handles@ == old(windows).handles@,
{
    if !has_window_handle(windows, hwnd) {
        return FALSE;
    }
    proof {
        let k = choose|k: int| 0 <= k < windows.handles@.len() && windows.handles@[k] == hwnd;
        assert(windows.handles@[k] == WINDOW_HANDLE_BASE + k);
    }
    let i = (hwnd - WINDOW_HANDLE_BASE) as usize;
    windows.handles.set(i, 0);
    TRUE
}

/// Show a window. Always `TRUE`.
#[allow(non_snake_case)]
pub fn ShowWindow(hwnd: HWND, cmd: i32) -> (r: BOOL)
    ensures
        r == TRUE,
{
    TRUE
}

/// Update a window. Always `TRUE`.
#[allow(non_snake_case)]
pub fn UpdateWindow(hwnd: HWND) -> (r: BOOL)
    ensures
        r == TRUE,
{
    TRUE
}

/// Read a message: none is ever there, so the message is zeroed and the
/// answer is -1.
#[allow(non_snake_case)]
pub fn GetMessageW(msg: &mut Msg, hwnd: HWND, min: u32, max: u32) -> (r: i32)
    ensures
        r == -1,
        zero_msg(*final(msg)),
{
    *msg = zeroed_msg();
    -1
}

/// Look for a message: none is ever there, so the message is zeroed and
/// the answer is `FALSE`.
#[allow(non_snake_case)]
pub fn PeekMessageW(msg: &mut Msg, hwnd: HWND, min: u32, max: u32, remove: u32) -> (r: BOOL)
    ensures
        r == FALSE,
        zero_msg(*final(msg)),
{
    *msg = zeroed_msg();
    FALSE
}

/// Translate a message. Always `TRUE`.
#[allow(non_snake_case)]
pub fn TranslateMessage(msg: &Msg) -> (r: BOOL)
    ensures
        r == TRUE,
{
    TRUE
}

/// Dispatch a message: 0.
#[allow(non_snake_case)]
pub fn DispatchMessageW(msg: &Msg) -> (r: isize)
    ensures
        r == 0,
{
    0
}

/// Ask to quit: nothing is posted.
#[allow(non_snake_case)]
pub fn PostQuitMessage(code: i32) {
}

/// The foreground window: none (0).
#[allow(non_snake_case)]
pub fn GetForegroundWindow() -> (r: HWND)
    ensures
        r == 0,
{
    0
}

/// Bring a window to the foreground. Always `TRUE`.
#[allow(non_snake_case)]
pub fn SetForegroundWindow(hwnd: HWND) -> (r: BOOL)
    ensures
        r == TRUE,
{
    TRUE
}

} // verus!
