use nt61::user32::{WindowTable, WINDOW_HANDLE_BASE, alloc_window_handle, has_window_handle};
use nt61::user32::smoke;
use nt61::user32::message::{MessageQueues, MSG, GetMessageW, PeekMessageW, PostMessageW, PostQuitMessage, SendMessageW,
    WaitMessage, WM_QUIT, WM_USER, WM_PAINT, PM_REMOVE, PM_NOREMOVE, MAX_MESSAGES};
use nt61::user32::menu::{MenuTable, CreateMenu, CreatePopupMenu, DestroyMenu, AppendMenuW, InsertMenuW, DeleteMenu,
    MF_BYPOSITION, MF_BYCOMMAND, MF_POPUP, MAX_MENUS};
use nt61::user32::dialog::{DialogTable, DialogBoxParamW, CreateDialogParamW, EndDialog, GetDlgItemTextW};
use nt61::user32::input::{GetSystemMetrics, GetKeyboardState, GetCursorPos, SM_CXSCREEN, SM_CYSCREEN};
use nt61::user32::gdi_link::{GdiLink, add, lookup};
use nt61::user32::class::{WndClassExW, RegisterClassExW, REGISTERED_CLASS_ATOM};

fn wide(s: &str) -> Vec<u16> {
    let mut v: Vec<u16> = s.encode_utf16().collect();
    v.push(0);
    v
}

fn narrow(v: &[u16]) -> String {
    let end = v.iter().position(|&c| c == 0).unwrap_or(v.len());
    String::from_utf16(&v[..end]).unwrap()
}

#[test]
fn user32_smoke_cases() {
    let mut windows = WindowTable::new();
    assert!(smoke::test_create_destroy_window(&mut windows));
    assert!(smoke::test_show_update(&mut windows));
    assert!(smoke::test_get_peek_message());
    assert!(smoke::test_class_register());
    assert!(smoke::test_get_system_metrics());
    assert!(smoke::test_keyboard_state());
    assert!(smoke::test_get_cursor_pos());
    assert!(smoke::test_get_async_key_state());
    assert!(smoke::test_def_window_proc());
    assert!(smoke::test_translate_dispatch());
    assert!(smoke::test_post_quit());
    assert!(smoke::test_foreground_window());
    assert!(smoke::test_window_alloc_unique(&mut windows));
    let mut link = GdiLink::new();
    assert!(smoke::test_gdi_link(&mut link));
    assert!(smoke::smoke_test());
}

#[test]
fn gdi_link_case_fails_when_alpha_blend_is_linked() {
    let mut link = GdiLink::new();
    add(&mut link, "GdiAlphaBlend", "gdi32!GdiAlphaBlend");
    assert!(!smoke::test_gdi_link(&mut link));
}

#[test]
fn window_handles_follow_the_base_and_differ() {
    let mut t = WindowTable::new();
    let a = alloc_window_handle(&mut t);
    let b = alloc_window_handle(&mut t);
    assert_eq!(a, WINDOW_HANDLE_BASE);
    assert_eq!(b, WINDOW_HANDLE_BASE + 1);
    assert!(has_window_handle(&t, a) && has_window_handle(&t, b));
    assert!(!has_window_handle(&t, WINDOW_HANDLE_BASE + 2));
}

#[test]
fn destroyed_window_is_released() {
    let mut t = WindowTable::new();
    let h = nt61::user32::window::CreateWindowExW(&mut t, 0, 0, 0, 0, 0, 0, 100, 50, 0, 0, 0, 0);
    let other = alloc_window_handle(&mut t);
    assert!(has_window_handle(&t, h));
    assert_eq!(nt61::user32::window::DestroyWindow(&mut t, h), 1);
    assert!(!has_window_handle(&t, h));
    assert_eq!(nt61::user32::window::DestroyWindow(&mut t, h), 0);
    assert_eq!(nt61::user32::window::DestroyWindow(&mut t, 0), 0);
    assert!(has_window_handle(&t, other));
    assert!(!has_window_handle(&t, 0));
    let next = alloc_window_handle(&mut t);
    assert_eq!(next, WINDOW_HANDLE_BASE + 2);
}

#[test]
fn posted_message_is_read_back() {
    let mut q = MessageQueues::new();
    let mut m = MSG::new();
    assert_eq!(GetMessageW(&mut q, &mut m, 0, 0, 0), None);
    assert_eq!(WaitMessage(&q), 0);
    assert_eq!(PostMessageW(&mut q, 5, WM_USER, 10, -3), 1);
    assert_eq!(WaitMessage(&q), 1);
    assert_eq!(PeekMessageW(&mut q, &mut m, 0, 0, 0, PM_NOREMOVE), 1);
    assert_eq!((m.hwnd, m.message, m.wparam, m.lparam), (5, WM_USER, 10, -3));
    let mut m2 = MSG::new();
    assert_eq!(GetMessageW(&mut q, &mut m2, 0, 0, 0), Some(1));
    assert_eq!((m2.hwnd, m2.message, m2.wparam, m2.lparam), (5, WM_USER, 10, -3));
    assert_eq!(WaitMessage(&q), 0);
}

#[test]
fn messages_come_in_order_and_quit_gives_zero() {
    let mut q = MessageQueues::new();
    PostMessageW(&mut q, 1, WM_PAINT, 0, 0);
    SendMessageW(&mut q, 1, WM_USER + 1, 0, 0);
    PostQuitMessage(&mut q, 3);
    let mut m = MSG::new();
    assert_eq!(GetMessageW(&mut q, &mut m, 0, 0, 0), Some(1));
    assert_eq!(m.message, WM_PAINT);
    assert_eq!(GetMessageW(&mut q, &mut m, 0, 0, 0), Some(1));
    assert_eq!(m.message, WM_USER + 1);
    assert_eq!(GetMessageW(&mut q, &mut m, 0, 0, 0), Some(0));
    assert_eq!((m.message, m.wparam), (WM_QUIT, 3));
}

#[test]
fn get_message_drops_what_the_filter_refuses() {
    let mut q = MessageQueues::new();
    PostMessageW(&mut q, 1, WM_PAINT, 0, 0);
    PostMessageW(&mut q, 2, WM_USER, 0, 0);
    let mut m = MSG::new();
    assert_eq!(GetMessageW(&mut q, &mut m, 2, 0, 0), Some(1));
    assert_eq!(m.hwnd, 2);
    assert_eq!(WaitMessage(&q), 0);
}

#[test]
fn peek_with_filter_miss_leaves_message() {
    let mut q = MessageQueues::new();
    PostMessageW(&mut q, 1, WM_PAINT, 0, 0);
    let mut m = MSG::new();
    m.time = 99;
    assert_eq!(PeekMessageW(&mut q, &mut m, 7, 0, 0, PM_NOREMOVE), 0);
    assert_eq!(m.time, 99);
    assert_eq!(PeekMessageW(&mut q, &mut m, 0, WM_PAINT, WM_PAINT, PM_REMOVE), 1);
    assert_eq!(WaitMessage(&q), 0);
}

#[test]
fn queue_holds_at_most_its_slots() {
    let mut q = MessageQueues::new();
    for i in 0..MAX_MESSAGES {
        assert_eq!(PostMessageW(&mut q, 1, WM_USER, i, 0), 1);
    }
    assert_eq!(PostMessageW(&mut q, 1, WM_USER, 0, 0), 0);
}

#[test]
fn menus_append_insert_delete() {
    let mut t = MenuTable::new();
    let h = CreateMenu(&mut t);
    assert_eq!(h, 1);
    let p = CreatePopupMenu(&mut t);
    assert_eq!(p, 2);
    assert!(t.menus[1].as_ref().unwrap().is_popup);
    assert_eq!(AppendMenuW(&mut t, h, 0, 10, Some(&wide("Open"))), 1);
    assert_eq!(AppendMenuW(&mut t, h, 0, 20, Some(&wide("Save"))), 1);
    assert_eq!(InsertMenuW(&mut t, h, 1, MF_BYPOSITION, 15, Some(&wide("Close"))), 1);
    let m = t.menus[0].as_ref().unwrap();
    assert_eq!(m.count, 3);
    assert_eq!((m.items[0].id, m.items[1].id, m.items[2].id), (10, 15, 20));
    assert_eq!(narrow(&m.items[1].text), "Close");
    assert_eq!(InsertMenuW(&mut t, h, 20, MF_BYCOMMAND, 17, Some(&wide("Print"))), 1);
    assert_eq!(t.menus[0].as_ref().unwrap().items[2].id, 17);
    assert_eq!(InsertMenuW(&mut t, h, 9, MF_BYPOSITION, 1, None), 0);
    assert_eq!(DeleteMenu(&mut t, h, 15, MF_BYCOMMAND), 1);
    let m = t.menus[0].as_ref().unwrap();
    assert_eq!(m.count, 3);
    assert_eq!((m.items[0].id, m.items[1].id, m.items[2].id), (10, 17, 20));
    assert_eq!(DeleteMenu(&mut t, h, 99, MF_BYCOMMAND), 0);
    assert_eq!(DeleteMenu(&mut t, h, 3, MF_BYPOSITION), 0);
    assert_eq!(AppendMenuW(&mut t, p, MF_POPUP, h as usize, Some(&wide("Sub"))), 1);
    let popup_item = t.menus[1].as_ref().unwrap().items[0];
    assert_eq!((popup_item.id, popup_item.submenu, popup_item.text[0]), (h as u32, 0, 0));
    assert_eq!(DestroyMenu(&mut t, h), 1);
    assert!(t.menus[0].is_none());
    assert_eq!(AppendMenuW(&mut t, h, 0, 1, None), 0);
    assert_eq!(DestroyMenu(&mut t, 0), 0);
    assert_eq!(DestroyMenu(&mut t, (MAX_MENUS + 1) as u64), 0);
}

#[test]
fn dialogs_take_slots_and_end() {
    let mut windows = WindowTable::new();
    let mut dialogs = DialogTable::new();
    assert_eq!(DialogBoxParamW(&mut windows, &mut dialogs, 0, None, 0, 0x1000, 0), (-1, 0));
    let (r, hwnd) = DialogBoxParamW(&mut windows, &mut dialogs, 0, Some(&wide("DLG")), 0, 0x1000, 7);
    assert_eq!(r, 0);
    assert_eq!(hwnd, WINDOW_HANDLE_BASE);
    assert!(dialogs.dialogs[0].active);
    assert_eq!((dialogs.dialogs[0].hwnd, dialogs.dialogs[0].dialog_proc), (hwnd, 0x1000));
    assert_eq!(EndDialog(&mut dialogs, hwnd, 0), 1);
    assert!(!dialogs.dialogs[0].active);
    let h2 = CreateDialogParamW(&mut windows, &mut dialogs, 0, Some(&wide("DLG2")), 0, 0x2000, 0);
    assert_eq!(h2, WINDOW_HANDLE_BASE + 1);
    assert!(dialogs.dialogs[0].active);
    assert_eq!(dialogs.dialogs[0].hwnd, h2);
    assert_eq!(EndDialog(&mut dialogs, h2, 0), 1);
    assert!(!dialogs.dialogs[0].active);
    assert_eq!(EndDialog(&mut dialogs, 0, 0), 0);
    let mut buf = [7u16; 3];
    assert_eq!(GetDlgItemTextW(h2, 1, &mut buf, 3), 0);
    assert_eq!(buf, [0, 7, 7]);
}

#[test]
fn input_and_class_values() {
    assert_eq!(GetSystemMetrics(SM_CXSCREEN), 1024);
    assert_eq!(GetSystemMetrics(SM_CYSCREEN), 768);
    let mut small = [1u8; 10];
    assert_eq!(GetKeyboardState(&mut small), 0);
    assert_eq!(small, [1u8; 10]);
    let mut p = [5i32; 1];
    assert_eq!(GetCursorPos(&mut p), 0);
    let mut cls = WndClassExW { cb_size: 80, style: 0, lpfn_wnd_proc: 0, cb_cls_extra: 0, cb_wnd_extra: 0,
        h_instance: 0, h_icon: 0, h_cursor: 0, hbr_background: 0, lpsz_menu_name: 0, lpsz_class_name: 0x5000,
        h_icon_sm: 0 };
    assert_eq!(RegisterClassExW(Some(&cls)), REGISTERED_CLASS_ATOM);
    cls.lpsz_class_name = 0;
    assert_eq!(RegisterClassExW(Some(&cls)), REGISTERED_CLASS_ATOM);
    assert_eq!(RegisterClassExW(None), 0);
}

#[test]
fn gdi_link_first_entry_wins() {
    let mut link = GdiLink::new();
    assert_eq!(lookup(&link, "GdiFlush"), None);
    add(&mut link, "GdiFlush", "a");
    add(&mut link, "GdiFlush", "b");
    assert_eq!(lookup(&link, "GdiFlush"), Some(String::from("a")));
}
