use nt61::win32k::objects::{GdiState, GdiHandleTable, GdiObjectType, GdiCreatePen, GdiCreateSolidBrush, GdiDeleteObject,
    GdiGetPenColor, GdiGetBrushColor, GdiIsHandleValid, GdiGetObjectType, PenStyle, Rect, get_handle_prefix};
use nt61::win32k::dc::{DcHandleTable, DcObject, GreCreateDisplayDC, GreDeleteDC, GreSetTextColor, GreGetTextColor,
    GreSaveDC, GreRestoreDC, GreSetBkMode, GreGetBkMode, DC_HANDLE_BASE, GreCreateCompatibleDC, get_dc, GreSelectObject,
    GreGetCurrentPen, GreGetCurrentBrush};
use nt61::win32k::clipboard::{ClipboardState, open_clipboard, close_clipboard, set_clipboard_data, get_clipboard_data,
    empty_clipboard, is_format_available, get_sequence_number};
use nt61::win32k::window::WindowManager;
use nt61::win32k::paint::{client_to_screen, screen_to_client, POINT};
use nt61::win32k::user_objects::{HookTable, TimerTable, install_hook, remove_hook, create_timer, kill_timer, get_timer};
use nt61::win32k::text::{calc_text_extent, get_char_width_8x8};
use nt61::win32k::region::{GreCreateRectRgn, GreCombineRgn, GreGetRgnBox, GrePtInRegion, GreRectInRegion, GreEqualRgn,
    RegionCombineMode};

fn wide(s: &str) -> Vec<u16> {
    let mut v: Vec<u16> = s.encode_utf16().collect();
    v.push(0);
    v
}

#[test]
fn handle_table_recycles_the_lowest_free_slot() {
    let mut t = GdiHandleTable::new();
    let a = t.allocate(GdiObjectType::Pen, 10, 0);
    assert_eq!(a, 0x4005_0000);
    assert_eq!(t.get(a).unwrap().obj_ptr, 10);
    let b = t.allocate(GdiObjectType::Brush, 11, 0);
    assert_eq!(b, (0x4007u64 << 16) | 1);
    assert_eq!(t.get(b).unwrap().obj_ptr, 11);
    assert_eq!(t.entries.len(), 2);
    assert!(t.free(b).is_some());
    let c = t.allocate(GdiObjectType::Font, 12, 0);
    assert_eq!(c, (0x4004u64 << 16) | 1);
    assert_eq!(t.get(c).unwrap().obj_ptr, 12);
    assert!(t.get(b).is_none());
    assert_eq!(get_handle_prefix(GdiObjectType::Region), 0x4008);
}

#[test]
fn created_handles_name_their_objects() {
    let mut gdi = GdiState::new();
    let first = GdiCreatePen(&mut gdi, PenStyle::Solid, 1, 0xAA);
    assert_eq!(GdiGetPenColor(&gdi, first), 0xAA);
    let second = GdiCreatePen(&mut gdi, PenStyle::Solid, 1, 0xBB);
    assert_eq!(GdiGetPenColor(&gdi, first), 0xAA);
    assert_eq!(GdiGetPenColor(&gdi, second), 0xBB);
    assert!(GdiIsHandleValid(&gdi, first));
    assert!(GdiIsHandleValid(&gdi, second));
    assert_eq!(first, 0x4005_0000);
    assert_eq!(second, 0x4005_0001);
}

#[test]
fn deleted_handle_is_no_longer_valid() {
    let mut gdi = GdiState::new();
    let p = GdiCreatePen(&mut gdi, PenStyle::Solid, 1, 1);
    let _b = GdiCreateSolidBrush(&mut gdi, 2);
    let p2 = GdiCreatePen(&mut gdi, PenStyle::Solid, 1, 3);
    assert_eq!(GdiGetObjectType(&gdi, p), Some(GdiObjectType::Pen));
    let brush_handle = (0x4007u64 << 16) | 1;
    assert_eq!(GdiGetObjectType(&gdi, brush_handle), Some(GdiObjectType::Brush));
    assert_eq!(GdiGetBrushColor(&gdi, brush_handle), 2);
    assert!(GdiDeleteObject(&mut gdi, brush_handle));
    assert!(!GdiIsHandleValid(&gdi, brush_handle));
    assert!(!GdiDeleteObject(&mut gdi, brush_handle));
    assert!(!GdiDeleteObject(&mut gdi, 0));
    let again = GdiCreatePen(&mut gdi, PenStyle::Solid, 1, 4);
    assert_eq!(again & 0xFFFF, 1);
    assert_eq!(GdiGetPenColor(&gdi, again), 4);
    let _ = p2;
}

#[test]
fn rect_operations() {
    let a = Rect::new(0, 0, 10, 10);
    let b = Rect::new(5, -5, 20, 5);
    assert_eq!(a.intersect(&b), Some(Rect::new(5, 0, 10, 5)));
    assert_eq!(a.intersect(&Rect::new(10, 0, 20, 10)), None);
    assert!(a.contains_point(0, 9) && !a.contains_point(10, 0));
    assert_eq!((b.width(), b.height()), (15, 10));
    let mut n = Rect::new(5, 5, 1, 2);
    n.normalize();
    assert_eq!(n, Rect::new(1, 2, 5, 5));
    assert_eq!(Rect::from_array(a.to_array()), a);
    assert!(Rect::new(3, 3, 3, 9).is_empty());
}

#[test]
fn dc_attributes_and_save_restore() {
    let mut dcs = DcHandleTable::new();
    let h = GreCreateDisplayDC(&mut dcs, 1);
    assert_eq!(h, DC_HANDLE_BASE);
    assert_eq!(GreSetTextColor(&mut dcs, h, 0x123456), 0);
    assert_eq!(GreGetTextColor(&dcs, h), 0x123456);
    assert_eq!(GreSaveDC(&mut dcs, h), 1);
    GreSetTextColor(&mut dcs, h, 0x777777);
    let old_mode = GreSetBkMode(&mut dcs, h, 1);
    assert_eq!(GreGetBkMode(&dcs, h), 1);
    assert!(GreRestoreDC(&mut dcs, h, -1));
    assert_eq!(GreGetTextColor(&dcs, h), 0x123456);
    assert_eq!(GreGetBkMode(&dcs, h), old_mode);
    assert!(!GreRestoreDC(&mut dcs, h, -1));
    assert!(GreDeleteDC(&mut dcs, h));
    assert_eq!(GreGetTextColor(&dcs, h), 0);
    assert_eq!(GreSaveDC(&mut dcs, h), 0);
    assert!(!GreDeleteDC(&mut dcs, h));
    let d = DcObject::new();
    assert_eq!(d.bg_color, 0x00FFFFFF);
}

#[test]
fn clipboard_set_get_empty() {
    let mut c = ClipboardState::new();
    assert!(!set_clipboard_data(&mut c, 1, b"x"));
    assert!(open_clipboard(&mut c, 42));
    assert!(!open_clipboard(&mut c, 43));
    assert!(set_clipboard_data(&mut c, 13, b"hello"));
    assert_eq!(get_clipboard_data(&c, 13), Some(&b"hello"[..]));
    assert_eq!(get_clipboard_data(&c, 0), Some(&b"hello"[..]));
    assert_eq!(get_clipboard_data(&c, 1), None);
    assert!(is_format_available(&c, 13));
    let seq = get_sequence_number(&c);
    assert!(close_clipboard(&mut c));
    assert_eq!(get_sequence_number(&c), seq + 1);
    assert!(!close_clipboard(&mut c));
    assert!(!empty_clipboard(&mut c));
    open_clipboard(&mut c, 1);
    assert!(empty_clipboard(&mut c));
    assert_eq!(get_clipboard_data(&c, 13), None);
}

#[test]
fn window_create_move_show() {
    let mut wm = WindowManager::new();
    let h = wm.create_window(&wide("Cls"), &wide("Title"), 0x10C00000, 0, 10, 20, 100, 50, None, 0).unwrap();
    assert_eq!(h, 1);
    let r = wm.get_window_rect(h).unwrap();
    assert_eq!(r, Rect::new(10, 20, 110, 70));
    assert_eq!(wm.get_client_rect(h).unwrap(), Rect::new(2, 22, 98, 48));
    assert!(wm.set_window_pos(h, 0, 0, 30, 40));
    assert_eq!(wm.get_window_rect(h).unwrap(), Rect::new(0, 0, 30, 40));
    assert!(wm.show_window(h, false));
    assert!(wm.enable_window(h, false));
    assert!(!wm.is_window_enabled(h));
    let child = wm.create_window(&wide("C"), &wide("T"), 0, 0, 1, 1, 2, 2, Some(h), 0).unwrap();
    assert_eq!(child, 2);
    assert!(wm.destroy_window(h));
    assert_eq!(wm.get_window_rect(h), None);
    assert!(!wm.destroy_window(h));
    assert!(!wm.set_window_pos(99, 0, 0, 1, 1));
}

#[test]
fn client_screen_round_trip() {
    let mut wm = WindowManager::new();
    let h = wm.create_window(&wide("C"), &wide("T"), 0, 0, 7, 9, 10, 10, None, 0).unwrap();
    let mut p = POINT { x: 1, y: 2 };
    assert!(client_to_screen(&wm, h, &mut p));
    assert_eq!((p.x, p.y), (8, 11));
    assert!(screen_to_client(&wm, h, &mut p));
    assert_eq!((p.x, p.y), (1, 2));
    assert!(!client_to_screen(&wm, 5, &mut p));
    assert_eq!((p.x, p.y), (1, 2));
}

#[test]
fn hooks_and_timers() {
    let mut hooks = HookTable::new();
    assert_eq!(install_hook(&mut hooks, 99, 1, 0), None);
    let h = install_hook(&mut hooks, 2, 0x1000, 7).unwrap();
    assert!(remove_hook(&mut hooks, h));
    let mut timers = TimerTable::new();
    let id = create_timer(&mut timers, 5, 0, 100, 0).unwrap();
    assert_eq!(id, 1);
    assert_eq!(create_timer(&mut timers, 5, 77, 50, 0), Some(77));
    assert_eq!(get_timer(&timers, 77).unwrap().u_elapse, 50);
    assert!(kill_timer(&mut timers, 5, 77));
    assert!(!kill_timer(&mut timers, 5, 77));
    assert!(get_timer(&timers, 77).is_none());
    assert!(kill_timer(&mut timers, 5, 0));
    assert!(!kill_timer(&mut timers, 6, 0));
}

#[test]
fn text_extent_sums_char_widths() {
    let w_a = get_char_width_8x8(b'a');
    let w_b = get_char_width_8x8(b'b');
    assert_eq!(calc_text_extent(b"ab", 16), (w_a + w_b, 16));
    assert_eq!(calc_text_extent(b"\n", 8), (8, 8));
    assert_eq!(calc_text_extent(b"", 8), (0, 8));
}

#[test]
fn regions_combine_by_extents() {
    use_regions();
}

fn use_regions() {
    let mut gdi = GdiState::new();
    let _a = GreCreateRectRgn(&mut gdi, 0, 0, 1, 1);
    let h1 = GreCreateRectRgn(&mut gdi, 0, 0, 10, 10);
    let h2 = GreCreateRectRgn(&mut gdi, 5, 5, 20, 20);
    let h3 = GreCreateRectRgn(&mut gdi, 0, 0, 0, 0);
    assert_eq!(h1, (0x4008u64 << 16) | 1);
    assert!(GrePtInRegion(&gdi, h1, 5, 5));
    assert!(!GrePtInRegion(&gdi, h1, 10, 10));
    assert_eq!(GreCombineRgn(&mut gdi, h3, h1, h2, RegionCombineMode::Intersection), 1);
    let mut r = Rect::new(0, 0, 0, 0);
    assert_eq!(GreGetRgnBox(&gdi, h3, &mut r), 1);
    assert_eq!(r, Rect::new(5, 5, 10, 10));
    assert_eq!(GreCombineRgn(&mut gdi, h3, h1, h2, RegionCombineMode::Union), 2);
    GreGetRgnBox(&gdi, h3, &mut r);
    assert_eq!(r, Rect::new(0, 0, 20, 20));
    assert!(GreRectInRegion(&gdi, h2, &Rect::new(0, 0, 6, 6)));
    assert!(!GreRectInRegion(&gdi, h2, &Rect::new(0, 0, 5, 5)));
    assert!(!GreEqualRgn(&gdi, h1, h2));
    assert_eq!(GreCombineRgn(&mut gdi, 77, h1, h2, RegionCombineMode::Copy), 0);
}

#[test]
fn win32k_smoke_test_takes_one_handle_from_the_counter() {
    let mut g = nt61::win32k::Win32kGlobals::new();
    assert!(nt61::win32k::smoke_test(&mut g));
    assert_eq!(g.next_gdi_handle, 0x4000_0001);
    assert!(!g.initialized);
    let mut z = nt61::win32k::Win32kGlobals { initialized: true, next_gdi_handle: 0 };
    assert!(!nt61::win32k::smoke_test(&mut z));
    assert_eq!(z.next_gdi_handle, 1);
}

#[test]
fn destroy_window_takes_the_whole_subtree() {
    let mut wm = WindowManager::new();
    let root = wm.create_window(&wide("R"), &wide("T"), 0, 0, 0, 0, 10, 10, None, 0).unwrap();
    let keep = wm.create_window(&wide("K"), &wide("T"), 0, 0, 0, 0, 10, 10, None, 0).unwrap();
    let child = wm.create_window(&wide("C"), &wide("T"), 0, 0, 0, 0, 5, 5, Some(root), 0).unwrap();
    let grandchild = wm.create_window(&wide("G"), &wide("T"), 0, 0, 0, 0, 2, 2, Some(child), 0).unwrap();
    let keep_child = wm.create_window(&wide("KC"), &wide("T"), 0, 0, 0, 0, 2, 2, Some(keep), 0).unwrap();
    assert_eq!(wm.window_count, 5);
    assert!(wm.destroy_window(root));
    assert_eq!(wm.window_count, 2);
    assert!(wm.get_window(root).is_none());
    assert!(wm.get_window(child).is_none());
    assert!(wm.get_window(grandchild).is_none());
    assert!(wm.get_window(keep).is_some());
    assert!(wm.get_window(keep_child).is_some());
    assert!(wm.destroy_window(keep_child));
    assert_eq!(wm.window_count, 1);
    assert!(wm.get_window(keep).unwrap().children.is_empty());
}

#[test]
fn restore_dc_by_level() {
    let mut dcs = DcHandleTable::new();
    let h = GreCreateCompatibleDC(&mut dcs, 0, 0);
    assert!(get_dc(&dcs, h).is_some());
    assert_eq!(get_dc(&dcs, 0).map(|d| d.dc_type), None);
    GreSetTextColor(&mut dcs, h, 1);
    assert_eq!(GreSaveDC(&mut dcs, h), 1);
    GreSetTextColor(&mut dcs, h, 2);
    assert_eq!(GreSaveDC(&mut dcs, h), 2);
    GreSetTextColor(&mut dcs, h, 3);
    assert_eq!(GreSaveDC(&mut dcs, h), 3);
    GreSetTextColor(&mut dcs, h, 4);
    assert!(!GreRestoreDC(&mut dcs, h, 4));
    assert!(!GreRestoreDC(&mut dcs, h, 0));
    assert!(!GreRestoreDC(&mut dcs, h, -4));
    assert!(GreRestoreDC(&mut dcs, h, -2));
    assert_eq!(GreGetTextColor(&dcs, h), 2);
    assert!(GreRestoreDC(&mut dcs, h, 1));
    assert_eq!(GreGetTextColor(&dcs, h), 1);
    assert!(!GreRestoreDC(&mut dcs, h, -1));
    assert_eq!(GreSetTextColor(&mut dcs, 0, 5), 0xFFFFFFFF);
    assert!(!GreDeleteDC(&mut dcs, 0));
}

#[test]
fn select_object_by_type_prefix() {
    let mut dcs = DcHandleTable::new();
    let mut gdi = GdiState::new();
    let h = GreCreateCompatibleDC(&mut dcs, 0, 0);
    let hp = GdiCreatePen(&mut gdi, PenStyle::Solid, 1, 0);
    assert_eq!(hp >> 16, 0x4005);
    assert_eq!(GreSelectObject(&mut dcs, &mut gdi, h, hp), 0);
    assert_eq!(GreGetCurrentPen(&dcs, h), hp);
    let hp2 = GdiCreatePen(&mut gdi, PenStyle::Solid, 1, 9);
    assert_eq!(GreSelectObject(&mut dcs, &mut gdi, h, hp2), hp);
    let hb = GdiCreateSolidBrush(&mut gdi, 3);
    assert_eq!(GreSelectObject(&mut dcs, &mut gdi, h, hb), 0);
    assert_eq!(GreGetCurrentBrush(&dcs, h), hb);
    assert_eq!(GreSelectObject(&mut dcs, &mut gdi, h, 0x0005_0001), 0);
    assert_eq!(GreGetCurrentPen(&dcs, h), hp2);
}

#[test]
fn remove_hook_by_its_handle() {
    let mut hooks = HookTable::new();
    let h = install_hook(&mut hooks, 2, 0x1000, 0).unwrap();
    let h2 = install_hook(&mut hooks, 2, 0x2000, 0).unwrap();
    assert_ne!(h, h2);
    assert!(!remove_hook(&mut hooks, h2 + 1));
    assert!(hooks.handles[0].is_some() && hooks.handles[1].is_some());
    assert!(remove_hook(&mut hooks, h2));
    assert!(hooks.handles[0].is_some() && hooks.handles[1].is_none());
    assert!(!remove_hook(&mut hooks, h2));
    assert!(remove_hook(&mut hooks, h));
    assert!(!remove_hook(&mut hooks, h));
}

#[test]
fn difference_of_regions() {
    let mut gdi = GdiState::new();
    let d = GreCreateRectRgn(&mut gdi, 0, 0, 1, 1);
    let a = GreCreateRectRgn(&mut gdi, 2, 2, 8, 8);
    let b = GreCreateRectRgn(&mut gdi, 5, 5, 20, 20);
    let c = GreCreateRectRgn(&mut gdi, 0, 0, 10, 10);
    let top = GreCreateRectRgn(&mut gdi, 0, 0, 10, 4);
    let mid = GreCreateRectRgn(&mut gdi, 4, 4, 6, 6);
    let mut r = Rect::new(0, 0, 0, 0);
    assert_eq!(GreCombineRgn(&mut gdi, d, a, b, RegionCombineMode::Intersection), 1);
    GreGetRgnBox(&gdi, d, &mut r);
    assert_eq!(r, Rect::new(5, 5, 8, 8));
    assert_eq!(GreCombineRgn(&mut gdi, d, a, c, RegionCombineMode::Difference), 0);
    assert_eq!(GreCombineRgn(&mut gdi, d, c, top, RegionCombineMode::Difference), 1);
    GreGetRgnBox(&gdi, d, &mut r);
    assert_eq!(r, Rect::new(0, 4, 10, 10));
    assert_eq!(GreCombineRgn(&mut gdi, d, c, mid, RegionCombineMode::Difference), 2);
    GreGetRgnBox(&gdi, d, &mut r);
    assert_eq!(r, Rect::new(0, 0, 10, 10));
    assert_eq!(GreCombineRgn(&mut gdi, d, a, top, RegionCombineMode::Difference), 1);
    GreGetRgnBox(&gdi, d, &mut r);
    assert_eq!(r, Rect::new(2, 4, 8, 8));
}

#[test]
fn clipboard_sequence_counts_changes() {
    let mut clip = ClipboardState::new();
    assert!(open_clipboard(&mut clip, 7));
    assert_eq!(get_sequence_number(&clip), 0);
    assert!(set_clipboard_data(&mut clip, 1, b"ab"));
    assert!(empty_clipboard(&mut clip));
    assert!(!open_clipboard(&mut clip, 8));
    assert!(close_clipboard(&mut clip));
    assert!(!close_clipboard(&mut clip));
    assert_eq!(get_sequence_number(&clip), 3);
}
