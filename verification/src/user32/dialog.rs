//! Dialog boxes: each gets a placeholder window and a slot in a table of
//! 32 dialogs that says whether it is active.
//!
//! The dialog procedure is the caller's code: `DialogBoxParamW` and
//! `CreateDialogParamW` give back the dialog window, and the caller sends
//! it `WM_INITDIALOG` through its procedure.

use vstd::prelude::*;
use crate::user32::types::{HWND, HINSTANCE};
use crate::user32::{WindowTable, WINDOW_HANDLE_BASE};
use crate::user32::window::CreateWindowExW;

verus! {

pub const DM_GETDEFID: u32 = 0x0400;
pub const DM_SETDEFID: u32 = 0x0401;
pub const DM_REPOSITION: u32 = 0x0402;

pub const WM_INITDIALOG: u32 = 0x0110;
pub const WM_COMMAND: u32 = 0x0111;

/// How many dialogs the table holds.
pub const MAX_DIALOGS: usize = 32;

/// A dialog template.
#[derive(Clone, Copy)]
pub struct DLGTEMPLATE {
    pub style: u32,
    pub dw_extended_style: u32,
    pub cdit: u16,
    pub x: i16,
    pub y: i16,
    pub cx: i16,
    pub cy: i16,
}

/// A dialog item template.
#[derive(Clone, Copy)]
pub struct DLGITEMTEMPLATE {
    pub style: u32,
    pub dw_extended_style: u32,
    pub x: i16,
    pub y: i16,
    pub cx: i16,
    pub cy: i16,
    pub id: u16,
}

/// A dialog's slot: its window, its procedure (0 for none), and whether
/// it is active.
#[derive(Clone, Copy)]
pub struct DialogState {
    pub hwnd: HWND,
    pub dialog_proc: u64,
    pub active: bool,
}

/// The dialogs, one per slot.
pub struct DialogTable {
    pub dialogs: Vec<DialogState>,
}

impl DialogTable {
    /// An empty table.
    pub fn new() -> (r: Self)
        ensures
            r.dialogs@.len() == MAX_DIALOGS,
            forall|i: int| 0 <= i < MAX_DIALOGS ==> !(#[trigger] r.dialogs@[i]).active && r.dialogs@[i].hwnd == 0,
    {
        let mut dialogs: Vec<DialogState> = Vec::new();
        let mut i: usize = 0;
        while i < MAX_DIALOGS
            invariant
                i <= MAX_DIALOGS,
                dialogs@.len() == i,
                forall|j: int| 0 <= j < i ==> !(#[trigger] dialogs@[j]).active && dialogs@[j].hwnd == 0,
            decreases MAX_DIALOGS - i,
        {
            dialogs.push(DialogState { hwnd: 0, dialog_proc: 0, active: false });
            i = i + 1;
        }
        DialogTable { dialogs }
    }
}

/// The first inactive slot, if any.
pub open spec fn first_inactive(s: Seq<DialogState>, i: int) -> Option<int>
    decreases s.len() - i,
{
    if i >= s.len() {
        None
    } else if !s[i].active {
        Some(i)
    } else {
        first_inactive(s, i + 1)
    }
}

/// The first slot of window `hwnd`, if any.
pub open spec fn first_with_hwnd(s: Seq<DialogState>, hwnd: HWND, i: int) -> Option<int>
    decreases s.len() - i,
{
    if i >= s.len() {
        None
    } else if s[i].hwnd == hwnd {
        Some(i)
    } else {
        first_with_hwnd(s, hwnd, i + 1)
    }
}

/// The table after the dialog `hwnd` with procedure `p` takes the first
/// inactive slot, as active (unchanged when there is none).
pub open spec fn registered(s: Seq<DialogState>, hwnd: HWND, p: u64) -> Seq<DialogState> {
    match first_inactive(s, 0) {
        Some(i) => s.update(i, DialogState { hwnd, dialog_proc: p, active: true }),
        None => s,
    }
}

/// The table after the first slot of window `hwnd` is made inactive
/// (unchanged when there is none).
pub open spec fn deactivated(s: Seq<DialogState>, hwnd: HWND) -> Seq<DialogState> {
    match first_with_hwnd(s, hwnd, 0) {
        Some(i) => s.update(i, DialogState { active: false, ..s[i] }),
        None => s,
    }
}

fn register_dialog(table: &mut DialogTable, hwnd: HWND, p: u64)
    ensures
        final(table).dialogs@ == registered(old(table).dialogs@, hwnd, p),
{
    let mut i: usize = 0;
    while i < table.dialogs.len()
        invariant
            i <= table.dialogs@.len(),
            table.dialogs@ == old(table).dialogs@,
            first_inactive(table.dialogs@, 0) == first_inactive(table.dialogs@, i as int),
        decreases table.dialogs@.len() - i,
    {
        if !table.dialogs[i].active {
            table.dialogs.set(i, DialogState { hwnd, dialog_proc: p, active: true });
            return;
        }
        i = i + 1;
    }
}

fn deactivate_dialog(table: &mut DialogTable, hwnd: HWND)
    ensures
        final(table).dialogs@ == deactivated(old(table).dialogs@, hwnd),
{
    let mut i: usize = 0;
    while i < table.dialogs.len()
        invariant
            i <= table.dialogs@.len(),
            table.dialogs@ == old(table).dialogs@,
            first_with_hwnd(table.dialogs@, hwnd, 0) == first_with_hwnd(table.dialogs@, hwnd, i as int),
        decreases table.dialogs@.len() - i,
    {
        if table.dialogs[i].hwnd == hwnd {
            let d = table.dialogs[i];
            table.dialogs.set(i, DialogState { active: false, ..d });
            return;
        }
        i = i + 1;
    }
}

/// Start a modal dialog from a named template with a procedure: (-1, 0),
/// with nothing changed, without a template name or a procedure. Else a
/// new placeholder window, styled pop-up with a caption at (100, 100) and
/// 300 x 200, takes the first inactive dialog slot: (0, the dialog
/// window). The caller then sends `WM_INITDIALOG` with `dw_init_param` to
/// the window through the procedure, and ends the dialog with
/// `EndDialog`.
#[allow(non_snake_case)]
pub fn DialogBoxParamW(windows: &mut WindowTable, dialogs: &mut DialogTable, h_instance: HINSTANCE,
    lp_template_name: Option<&[u16]>, h_wnd_parent: HWND, lp_dialog_func: u64, dw_init_param: isize) -> (r: (isize, HWND))
    requires
        old(windows).wf(),
        old(windows).handles@.len() + 1 < 0x1_0000_0000,
    ensures
        final(windows).wf(),
        (lp_template_name is None || lp_dialog_func == 0) ==> r == (-1isize, 0u64)
            && final(windows).handles@ == old(windows).handles@ && final(dialogs).dialogs@ == old(dialogs).dialogs@,
        (lp_template_name is Some && lp_dialog_func != 0) ==> {
            &&& r.0 == 0
            &&& r.1 == WINDOW_HANDLE_BASE + old(windows).handles@.len()
            &&& final(windows).handles@ == old(windows).handles@.push(r.1)
            &&& final(dialogs).dialogs@ == registered(old(dialogs).dialogs@, r.1, lp_dialog_func)
        },
{
    if lp_template_name.is_none() || lp_dialog_func == 0 {
        return (-1, 0);
    }
    let hwnd = CreateWindowExW(windows, 0, 0, 0, 0x80000000 | 0x00C00000, 100, 100, 300, 200, h_wnd_parent, 0,
        h_instance, 0);
    register_dialog(dialogs, hwnd, lp_dialog_func);
    (0, hwnd)
}

/// Run a modal dialog from a template in memory: -1 without a template
/// or a procedure, else 0 (no window is made).
#[allow(non_snake_case)]
pub fn DialogBoxIndirectParamW(h_instance: HINSTANCE, h_dialog_template: Option<&DLGTEMPLATE>, h_wnd_parent: HWND,
    lp_dialog_func: u64, dw_init_param: isize) -> (r: isize)
    ensures
        r == (if h_dialog_template is None || lp_dialog_func == 0 { -1isize } else { 0isize }),
{
    if h_dialog_template.is_none() || lp_dialog_func == 0 { -1 } else { 0 }
}

/// Make a modeless dialog from a named template: 0, with nothing changed,
/// without a template name. Else a new placeholder window, styled as for
/// `DialogBoxParamW`, takes the first inactive dialog slot and stays
/// active; its handle is the answer. The caller sends `WM_INITDIALOG`
/// through the procedure, when there is one.
#[allow(non_snake_case)]
pub fn CreateDialogParamW(windows: &mut WindowTable, dialogs: &mut DialogTable, h_instance: HINSTANCE,
    lp_template_name: Option<&[u16]>, h_wnd_parent: HWND, lp_dialog_func: u64, dw_init_param: isize) -> (r: HWND)
    requires
        old(windows).wf(),
        old(windows).handles@.len() + 1 < 0x1_0000_0000,
    ensures
        final(windows).wf(),
        lp_template_name is None ==> r == 0 && final(windows).handles@ == old(windows).handles@
            && final(dialogs).dialogs@ == old(dialogs).dialogs@,
        lp_template_name is Some ==> {
            &&& r == WINDOW_HANDLE_BASE + old(windows).handles@.len()
            &&& final(windows).handles@ == old(windows).handles@.push(r)
            &&& final(dialogs).dialogs@ == registered(old(dialogs).dialogs@, r, lp_dialog_func)
        },
{
    if lp_template_name.is_none() {
        return 0;
    }
    let hwnd = CreateWindowExW(windows, 0, 0, 0, 0x80000000 | 0x00C00000, 100, 100, 300, 200, h_wnd_parent, 0,
        h_instance, 0);
    register_dialog(dialogs, hwnd, lp_dialog_func);
    hwnd
}

/// Make a modeless dialog from a template in memory: no window is made;
/// 0.
#[allow(non_snake_case)]
pub fn CreateDialogIndirectParamW(h_instance: HINSTANCE, lp_template: Option<&DLGTEMPLATE>, h_wnd_parent: HWND,
    lp_dialog_func: u64, dw_init_param: isize) -> (r: HWND)
    ensures
        r == 0,
{
    0
}

/// End a dialog: its first slot is made inactive (1); 0, with nothing
/// changed, for a null window.
#[allow(non_snake_case)]
pub fn EndDialog(dialogs: &mut DialogTable, h_dlg: HWND, n_result: isize) -> (r: i32)
    ensures
        r == (if h_dlg == 0 { 0i32 } else { 1i32 }),
        h_dlg == 0 ==> final(dialogs).dialogs@ == old(dialogs).dialogs@,
        h_dlg != 0 ==> final(dialogs).dialogs@ == deactivated(old(dialogs).dialogs@, h_dlg),
{
    if h_dlg == 0 {
        return 0;
    }
    deactivate_dialog(dialogs, h_dlg);
    1
}

/// A control of a dialog: there are no controls; 0.
#[allow(non_snake_case)]
pub fn GetDlgItem(h_dlg: HWND, n_id_dlg_item: i32) -> (r: HWND)
    ensures
        r == 0,
{
    0
}

/// The number in a control: 0, with the translation flag set to 1 for a
/// dialog (nothing written for a null one).
#[allow(non_snake_case)]
pub fn GetDlgItemInt(h_dlg: HWND, n_id_dlg_item: i32, lp_translated: &mut i32, b_signed: i32) -> (r: u32)
    ensures
        r == 0,
        *final(lp_translated) == (if h_dlg == 0 { *old(lp_translated) } else { 1i32 }),
{
    if h_dlg == 0 {
        return 0;
    }
    *lp_translated = 1;
    0
}

/// Set the number in a control: 0 for a null dialog, else 1 (nothing is
/// kept).
#[allow(non_snake_case)]
pub fn SetDlgItemInt(h_dlg: HWND, n_id_dlg_item: i32, u_value: u32, b_signed: i32) -> (r: i32)
    ensures
        r == (if h_dlg == 0 { 0i32 } else { 1i32 }),
{
    if h_dlg == 0 { 0 } else { 1 }
}

/// The text of a control: the empty string, written as a terminator, and
/// length 0; nothing is written for a null dialog or an empty buffer.
#[allow(non_snake_case)]
pub fn GetDlgItemTextW(h_dlg: HWND, n_id_dlg_item: i32, lp_string: &mut [u16], n_max_count: i32) -> (r: u32)
    ensures
        r == 0,
        (h_dlg == 0 || old(lp_string)@.len() == 0) ==> final(lp_string)@ == old(lp_string)@,
        (h_dlg != 0 && old(lp_string)@.len() > 0) ==> final(lp_string)@ == old(lp_string)@.update(0, 0u16),
{
    if h_dlg == 0 || lp_string.len() == 0 {
        return 0;
    }
    lp_string[0] = 0;
    0
}

/// Set the text of a control: 0 for a null dialog or no text, else 1
/// (nothing is kept).
#[allow(non_snake_case)]
pub fn SetDlgItemTextW(h_dlg: HWND, n_id_dlg_item: i32, lp_string: Option<&[u16]>) -> (r: i32)
    ensures
        r == (if h_dlg == 0 || lp_string is None { 0i32 } else { 1i32 }),
{
    if h_dlg == 0 || lp_string.is_none() { 0 } else { 1 }
}

/// Check a button: 0 for a null dialog, else 1 (nothing is kept).
#[allow(non_snake_case)]
pub fn CheckDlgButton(h_dlg: HWND, n_id_button: i32, u_check: u32) -> (r: i32)
    ensures
        r == (if h_dlg == 0 { 0i32 } else { 1i32 }),
{
    if h_dlg == 0 { 0 } else { 1 }
}

/// Whether a button is checked: never (0).
#[allow(non_snake_case)]
pub fn IsDlgButtonChecked(h_dlg: HWND, n_id_button: i32) -> (r: u32)
    ensures
        r == 0,
{
    0
}

} // verus!
