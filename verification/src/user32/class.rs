//! Window class registration. No class table is kept: every registration
//! is accepted with a fixed atom.

use vstd::prelude::*;
use crate::user32::types::{BOOL, TRUE, FALSE, HINSTANCE};

verus! {

/// A class registration: pointers and handles are 64-bit values, 0 for
/// null.
#[derive(Clone, Copy)]
pub struct WndClassExW {
    pub cb_size: u32,
    pub style: u32,
    pub lpfn_wnd_proc: u64,
    pub cb_cls_extra: i32,
    pub cb_wnd_extra: i32,
    pub h_instance: HINSTANCE,
    pub h_icon: u64,
    pub h_cursor: u64,
    pub hbr_background: u64,
    pub lpsz_menu_name: u64,
    pub lpsz_class_name: u64,
    pub h_icon_sm: u64,
}

/// The atom every accepted registration gets.
pub const REGISTERED_CLASS_ATOM: u16 = 0xBEEF;

/// A class registration with every field zero.
pub open spec fn zero_class(c: WndClassExW) -> bool {
    &&& c.cb_size == 0 && c.style == 0 && c.lpfn_wnd_proc == 0 && c.cb_cls_extra == 0 && c.cb_wnd_extra == 0
    &&& c.h_instance == 0 && c.h_icon == 0 && c.h_cursor == 0 && c.hbr_background == 0
    &&& c.lpsz_menu_name == 0 && c.lpsz_class_name == 0 && c.h_icon_sm == 0
}

/// Register a class: 0 without a registration, else the fixed atom.
#[allow(non_snake_case)]
pub fn RegisterClassExW(class: Option<&WndClassExW>) -> (r: u16)
    ensures
        r == match class {
            None => 0u16,
            Some(c) => REGISTERED_CLASS_ATOM,
        },
{
    match class {
        None => 0,
        Some(c) => REGISTERED_CLASS_ATOM,
    }
}

/// Unregister a class. Always `TRUE`.
#[allow(non_snake_case)]
pub fn UnregisterClassW(class_name: u64, instance: HINSTANCE) -> (r: BOOL)
    ensures
        r == TRUE,
{
    TRUE
}

/// Look up a class: there is no class table, so the registration is
/// zeroed and the answer is `FALSE`.
#[allow(non_snake_case)]
pub fn GetClassInfoW(instance: HINSTANCE, class_name: u64, wnd: &mut WndClassExW) -> (r: BOOL)
    ensures
        r == FALSE,
        zero_class(*final(wnd)),
{
    *wnd = WndClassExW {
        cb_size: 0,
        style: 0,
        lpfn_wnd_proc: 0,
        cb_cls_extra: 0,
        cb_wnd_extra: 0,
        h_instance: 0,
        h_icon: 0,
        h_cursor: 0,
        hbr_background: 0,
        lpsz_menu_name: 0,
        lpsz_class_name: 0,
        h_icon_sm: 0,
    };
    FALSE
}

} // verus!
