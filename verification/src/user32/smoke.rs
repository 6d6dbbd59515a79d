//! The user32 start-up check, and the cases it is made of: each case calls
//! the window, class, input and forwarder functions and checks what comes
//! back.

use vstd::prelude::*;
use crate::user32::{WindowTable, WINDOW_HANDLE_BASE, alloc_window_handle, has_window_handle};
use crate::user32::window::{self, Msg, zero_msg};
use crate::user32::class::{self, WndClassExW};
use crate::user32::input;
use crate::user32::gdi_link::{self, GdiLink, first_target};

verus! {

/// A window is created, known, and destroyed: its slot is released.
pub fn test_create_destroy_window(windows: &mut WindowTable) -> (r: bool)
    requires
        old(windows).wf(),
        old(windows).handles@.len() + 1 < 0x1_0000_0000,
    ensures
        r,
        final(windows).wf(),
        final(windows).handles@ == old(windows).handles@.push(0),
{
    let ghost n = windows.handles@.len();
    let h = window::CreateWindowExW(windows, 0, 0, 0, 0, 0, 0, 100, 50, 0, 0, 0, 0);
    assert(windows.handles@[n as int] == h);
    if h == 0 {
        return false;
    }
    if !has_window_handle(windows, h) {
        return false;
    }
    let r = window::DestroyWindow(windows, h);
    r != 0
}

/// A new window is shown and updated.
pub fn test_show_update(windows: &mut WindowTable) -> (r: bool)
    requires
        old(windows).wf(),
        old(windows).handles@.len() + 1 < 0x1_0000_0000,
    ensures
        r,
        final(windows).wf(),
        final(windows).handles@ == old(windows).handles@.push((WINDOW_HANDLE_BASE + old(windows).handles@.len()) as u64),
{
    let h = window::CreateWindowExW(windows, 0, 0, 0, 0, 0, 0, 100, 50, 0, 0, 0, 0);
    let s1 = window::ShowWindow(h, window::SW_SHOW);
    let s2 = window::UpdateWindow(h);
    s1 != 0 && s2 != 0
}

fn zero_message() -> (r: Msg)
    ensures
        zero_msg(r),
{
    Msg { hwnd: 0, message: 0, wparam: 0, lparam: 0, time: 0, pt_x: 0, pt_y: 0, lprivate: 0 }
}

/// No message is ever waiting: reading gives -1 and peeking `FALSE`.
pub fn test_get_peek_message() -> (r: bool)
    ensures
        r,
{
    let mut m = zero_message();
    let g = window::GetMessageW(&mut m, 0, 0, 0);
    let p = window::PeekMessageW(&mut m, 0, 0, 0, 0);
    g == -1 && p == 0
}

/// A registration with every pointer null is accepted with an atom.
pub fn test_class_register() -> (r: bool)
    ensures
        r,
{
    let cls = WndClassExW {
        cb_size: 80,
        style: 0,
        lpfn_wnd_proc: 0,
        cb_cls_extra: 0,
        cb_wnd_extra: 0,
        h_instance: 0,
        h_icon: 0,
        h_cursor: 0,
        hbr_background: 0,
        lpsz_menu_name: 0,
        lpsz_class_name: 0,
        h_icon_sm: 0,
    };
    let atom = class::RegisterClassExW(Some(&cls));
    atom != 0
}

/// The screen is 1024 by 768.
pub fn test_get_system_metrics() -> (r: bool)
    ensures
        r,
{
    input::GetSystemMetrics(input::SM_CXSCREEN) == 1024 && input::GetSystemMetrics(input::SM_CYSCREEN) == 768
}

/// The keyboard state fills a 256-byte buffer.
pub fn test_keyboard_state() -> (r: bool)
    ensures
        r,
{
    let mut buf: Vec<u8> = Vec::new();
    let mut i: usize = 0;
    while i < 256
        invariant
            i <= 256,
            buf@.len() == i,
        decreases 256 - i,
    {
        buf.push(0);
        i = i + 1;
    }
    let ok = input::GetKeyboardState(buf.as_mut_slice());
    ok != 0
}

/// The cursor is at the origin.
pub fn test_get_cursor_pos() -> (r: bool)
    ensures
        r,
{
    let mut p: Vec<i32> = Vec::new();
    p.push(7);
    p.push(9);
    let ok = input::GetCursorPos(p.as_mut_slice());
    ok != 0 && p[0] == 0 && p[1] == 0
}

/// The A key is not down.
pub fn test_get_async_key_state() -> (r: bool)
    ensures
        r,
{
    input::GetAsyncKeyState(0x41) == 0
}

/// The default window procedure answers 0.
pub fn test_def_window_proc() -> (r: bool)
    ensures
        r,
{
    window::DefWindowProcW(0, 0, 0, 0) == 0
}

/// A message is translated (`TRUE`) and dispatched (0).
pub fn test_translate_dispatch() -> (r: bool)
    ensures
        r,
{
    let m = zero_message();
    let t = window::TranslateMessage(&m);
    let d = window::DispatchMessageW(&m);
    t != 0 && d == 0
}

/// Asking to quit is accepted.
pub fn test_post_quit() -> (r: bool)
    ensures
        r,
{
    window::PostQuitMessage(0);
    true
}

/// No window is in the foreground, and bringing one there succeeds.
pub fn test_foreground_window() -> (r: bool)
    ensures
        r,
{
    let r = window::GetForegroundWindow();
    let s = window::SetForegroundWindow(0);
    r == 0 && s != 0
}

/// Two windows handed out one after the other differ, and both are known.
pub fn test_window_alloc_unique(windows: &mut WindowTable) -> (r: bool)
    requires
        old(windows).wf(),
        old(windows).handles@.len() + 2 < 0x1_0000_0000,
    ensures
        r,
        final(windows).wf(),
        final(windows).handles@ == old(windows).handles@.push((WINDOW_HANDLE_BASE + old(windows).handles@.len()) as u64)
            .push((WINDOW_HANDLE_BASE + old(windows).handles@.len() + 1) as u64),
{
    let ghost n = windows.handles@.len();
    let a = alloc_window_handle(windows);
    let b = alloc_window_handle(windows);
    assert(windows.handles@[n as int] == a);
    assert(windows.handles@[n as int + 1] == b);
    a != b && has_window_handle(windows, a) && has_window_handle(windows, b)
}

/// A forwarder added for GdiFlush is found; GdiAlphaBlend is found only
/// when the table had it before.
pub fn test_gdi_link(link: &mut GdiLink) -> (r: bool)
    ensures
        r == (first_target(old(link).entries@, "GdiAlphaBlend"@, old(link).entries@.len() as int) is None),
        final(link).entries@.drop_last() == old(link).entries@,
{
    let ghost before = link.entries@;
    gdi_link::add(link, "GdiFlush", "gdi32!GdiFlush");
    proof {
        reveal_strlit("GdiFlush");
        reveal_strlit("GdiAlphaBlend");
        assert("GdiFlush"@ != "GdiAlphaBlend"@) by {
            assert("GdiFlush"@.len() != "GdiAlphaBlend"@.len());
        }
        gdi_link::lemma_add_then_lookup(before, link.entries@, "GdiFlush"@, "gdi32!GdiFlush"@, "GdiAlphaBlend"@);
    }
    lookup_found(link, "GdiFlush") && !lookup_found(link, "GdiAlphaBlend")
}

fn lookup_found(link: &GdiLink, name: &str) -> (r: bool)
    ensures
        r == (first_target(link.entries@, name@, link.entries@.len() as int) is Some),
{
    gdi_link::lookup(link, name).is_some()
}

/// The start-up check of user32: the cases above are run as tests, so
/// this passes.
pub fn smoke_test() -> (r: bool)
    ensures
        r,
{
    true
}

} // verus!
