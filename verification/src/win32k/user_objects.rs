//! USER objects kept by win32k: menus, dialog templates, hooks and timers.
//!
//! The hook and timer tables are values the caller owns; the handle and
//! timer-id counters live in them.

use vstd::prelude::*;

verus! {

// =============================================================================
// Menus
// =============================================================================

pub const MFT_STRING: u32 = 0x00000000;
pub const MFT_BITMAP: u32 = 0x00000004;
pub const MFT_MENUBARBREAK: u32 = 0x00000020;
pub const MFT_MENUBREAK: u32 = 0x00000040;
pub const MFT_OWNERDRAW: u32 = 0x00000100;
pub const MFT_POPUP: u32 = 0x00000010;
pub const MFT_SEPARATOR: u32 = 0x00000800;
pub const MFT_RADIOCHECK: u32 = 0x00000002;

pub const MFS_GRAYED: u32 = 0x00000003;
pub const MFS_DISABLED: u32 = 0x00000003;
pub const MFS_ENABLED: u32 = 0x00000000;
pub const MFS_CHECKED: u32 = 0x00000008;
pub const MFS_UNCHECKED: u32 = 0x00000000;
pub const MFS_DEFAULT: u32 = 0x00001000;

pub const MF_BYCOMMAND: u32 = 0x00000000;
pub const MF_BYPOSITION: u32 = 0x00000400;
pub const MF_ENABLED: u32 = 0x00000000;
pub const MF_GRAYED: u32 = 0x00000001;
pub const MF_DISABLED: u32 = 0x00000002;
pub const MF_CHECKED: u32 = 0x00000008;
pub const MF_UNCHECKED: u32 = 0x00000000;
pub const MF_POPUP: u32 = 0x00000010;
pub const MF_SEPARATOR: u32 = 0x00000800;
pub const MF_STRING: u32 = 0x00000000;
pub const MF_OWNERDRAW: u32 = 0x00000100;

/// Menu item.
#[derive(Clone, Debug)]
pub struct MenuItem {
    pub fmask: u32,
    pub itype: u32,
    pub state: u32,
    pub id: u32,
    pub submenu: u64,
    pub hbmp_checked: u64,
    pub hbmp_unchecked: u64,
    pub dw_item_data: u64,
    pub text: Vec<u16>,
    pub hbmp_item: u64,
}

impl MenuItem {
    /// An enabled, empty string item with id 0 and no submenu or bitmaps.
    pub fn new() -> (r: Self)
        ensures
            r.fmask == 0 && r.itype == MFT_STRING && r.state == MFS_ENABLED && r.id == 0,
            r.submenu == 0 && r.hbmp_checked == 0 && r.hbmp_unchecked == 0 && r.dw_item_data == 0,
            r.text@.len() == 0 && r.hbmp_item == 0,
    {
        MenuItem {
            fmask: 0,
            itype: MFT_STRING,
            state: MFS_ENABLED,
            id: 0,
            submenu: 0,
            hbmp_checked: 0,
            hbmp_unchecked: 0,
            dw_item_data: 0,
            text: Vec::new(),
            hbmp_item: 0,
        }
    }
}

/// Menu.
#[derive(Clone, Debug)]
pub struct Menu {
    pub style: u32,
    pub flags: u32,
    pub id: u32,
    pub window: u64,
    pub items: Vec<MenuItem>,
    pub help_id: u32,
    pub x: i32,
    pub y: i32,
    pub width: u32,
    pub height: u32,
}

impl Menu {
    /// An empty menu of `style`, every other field 0.
    pub fn new(style: u32) -> (r: Self)
        ensures
            r.style == style && r.flags == 0 && r.id == 0 && r.window == 0,
            r.items@.len() == 0,
            r.help_id == 0 && r.x == 0 && r.y == 0 && r.width == 0 && r.height == 0,
    {
        Menu { style, flags: 0, id: 0, window: 0, items: Vec::new(), help_id: 0, x: 0, y: 0, width: 0, height: 0 }
    }
}

/// Menu handle counter.
pub struct MenuHandles {
    pub next: u64,
}

impl MenuHandles {
    /// Menu handles are counted from `0x10000`.
    pub fn new() -> (r: Self)
        ensures
            r.next == 0x10000,
    {
        MenuHandles { next: 0x10000 }
    }
}

/// Allocate a menu handle: the counter's value, which then moves on by
/// one (wrapping).
pub fn allocate_menu_handle(handles: &mut MenuHandles) -> (r: u64)
    ensures
        r == old(handles).next,
        final(handles).next == old(handles).next.wrapping_add(1),
{
    let h = handles.next;
    handles.next = handles.next.wrapping_add(1);
    h
}

/// The number of items, truncated to 32 bits.
pub fn get_menu_item_count(menu: &Menu) -> (r: u32)
    ensures
        r == menu.items@.len() as u32,
{
    menu.items.len() as u32
}

/// Find an item: by position, the position itself when it is in range;
/// by command, the index of the first item with that id.
pub fn find_menu_item(menu: &Menu, id_or_pos: u32, by_position: bool) -> (r: Option<usize>)
    ensures
        by_position ==> (r is Some <==> (id_or_pos as int) < menu.items@.len()),
        by_position ==> (r matches Some(i) ==> i == id_or_pos),
        !by_position ==> match r {
            Some(i) => i < menu.items@.len() && menu.items@[i as int].id == id_or_pos
                && forall|j: int| 0 <= j < i ==> menu.items@[j].id != id_or_pos,
            None => forall|j: int| 0 <= j < menu.items@.len() ==> menu.items@[j].id != id_or_pos,
        },
{
    if by_position {
        let pos = id_or_pos as usize;
        if pos < menu.items.len() {
            Some(pos)
        } else {
            None
        }
    } else {
        let mut i: usize = 0;
        while i < menu.items.len()
            invariant
                !by_position,
                i <= menu.items@.len(),
                forall|j: int| 0 <= j < i ==> menu.items@[j].id != id_or_pos,
            decreases menu.items@.len() - i,
        {
            if menu.items[i].id == id_or_pos {
                return Some(i);
            }
            i = i + 1;
        }
        None
    }
}

// =============================================================================
// Dialogs
// =============================================================================

pub const IDOK: u32 = 1;
pub const IDCANCEL: u32 = 2;
pub const IDABORT: u32 = 3;
pub const IDRETRY: u32 = 4;
pub const IDIGNORE: u32 = 5;
pub const IDYES: u32 = 6;
pub const IDNO: u32 = 7;
pub const IDCLOSE: u32 = 8;
pub const IDHELP: u32 = 9;

pub const MB_OK: u32 = 0x00000000;
pub const MB_OKCANCEL: u32 = 0x00000001;
pub const MB_ABORTRETRYIGNORE: u32 = 0x00000002;
pub const MB_YESNOCANCEL: u32 = 0x00000003;
pub const MB_YESNO: u32 = 0x00000004;
pub const MB_RETRYCANCEL: u32 = 0x00000005;
pub const MB_ICONHAND: u32 = 0x00000010;
pub const MB_ICONQUESTION: u32 = 0x00000020;
pub const MB_ICONEXCLAMATION: u32 = 0x00000030;
pub const MB_ICONINFORMATION: u32 = 0x00000040;

/// Dialog box template header.
#[derive(Clone, Copy)]
pub struct DlgTemplate {
    pub style: u32,
    pub dw_extended_style: u32,
    pub cdit: i16,
    pub x: i16,
    pub y: i16,
    pub cx: i16,
    pub cy: i16,
}

impl DlgTemplate {
    /// A template with every field 0.
    pub fn new() -> (r: Self)
        ensures
            r == (DlgTemplate { style: 0, dw_extended_style: 0, cdit: 0, x: 0, y: 0, cx: 0, cy: 0 }),
    {
        DlgTemplate { style: 0, dw_extended_style: 0, cdit: 0, x: 0, y: 0, cx: 0, cy: 0 }
    }
}

/// Dialog.
#[derive(Clone, Debug)]
pub struct Dialog {
    pub hwnd_owner: u64,
    pub hwnd_template: u64,
    pub instance: u64,
    pub proc: u64,
    pub data: Vec<u8>,
    pub result: i64,
}

impl Dialog {
    /// A dialog with no owner, template, instance, procedure or data.
    pub fn new() -> (r: Self)
        ensures
            r.hwnd_owner == 0 && r.hwnd_template == 0 && r.instance == 0 && r.proc == 0,
            r.data@.len() == 0 && r.result == 0,
    {
        Dialog { hwnd_owner: 0, hwnd_template: 0, instance: 0, proc: 0, data: Vec::new(), result: 0 }
    }
}

// =============================================================================
// Hooks
// =============================================================================

pub const WH_MIN: i32 = -1;
pub const WH_MSGFILTER: i32 = -1;
pub const WH_JOURNALRECORD: i32 = 0;
pub const WH_JOURNALPLAYBACK: i32 = 1;
pub const WH_KEYBOARD: i32 = 2;
pub const WH_GETMESSAGE: i32 = 3;
pub const WH_CALLWNDPROC: i32 = 4;
pub const WH_CBT: i32 = 5;
pub const WH_SYSMSGFILTER: i32 = 6;
pub const WH_MOUSE: i32 = 7;
pub const WH_HARDWARE: i32 = 8;
pub const WH_DEBUG: i32 = 9;
pub const WH_SHELL: i32 = 10;
pub const WH_FOREGROUNDIDLE: i32 = 11;
pub const WH_CALLWNDPROCRET: i32 = 12;
pub const WH_KEYBOARD_LL: i32 = 13;
pub const WH_MOUSE_LL: i32 = 14;
pub const WH_MAX: i32 = 14;

pub const HF_GLOBAL: u32 = 0x0001;
pub const HF_ANCHOR: u32 = 0x0010;
pub const HF_HOOKED: u32 = 0x0004;

/// Hook.
#[derive(Clone, Copy, Debug)]
pub struct Hook {
    pub hook_type: i32,
    pub hook_proc: u64,
    pub module: u64,
    pub thread_id: u32,
    pub flags: u32,
    pub next: u64,
}

/// The hook `Hook::new(hook_type, hook_proc, thread_id)` builds: global
/// when it is not tied to a thread.
pub open spec fn new_hook(hook_type: i32, hook_proc: u64, thread_id: u32) -> Hook {
    Hook { hook_type, hook_proc, module: 0, thread_id, flags: if thread_id == 0 { HF_GLOBAL } else { 0 }, next: 0 }
}

impl Hook {
    /// A hook of `hook_type` calling `hook_proc`, global when `thread_id`
    /// is 0.
    pub fn new(hook_type: i32, hook_proc: u64, thread_id: u32) -> (r: Self)
        ensures
            r == new_hook(hook_type, hook_proc, thread_id),
    {
        Hook { hook_type, hook_proc, module: 0, thread_id, flags: if thread_id == 0 { HF_GLOBAL } else { 0 }, next: 0 }
    }
}

/// The installed hooks: handle counter, one chain of handles per hook type
/// (grown on demand), the hooks in installation order (a removed hook
/// leaves an empty slot), and the handle each slot was given.
pub struct HookTable {
    pub next_handle: u64,
    pub chains: Vec<Vec<u64>>,
    pub handles: Vec<Option<Hook>>,
    pub ids: Vec<u64>,
}

/// The chain of hook type `t` (empty where it was never grown).
pub open spec fn chain_of(t: &HookTable, idx: int) -> Seq<u64> {
    if 0 <= idx < t.chains@.len() { t.chains@[idx]@ } else { Seq::empty() }
}

impl HookTable {
    /// Every slot has its handle; the handles given out are distinct and all
    /// below the counter, which never went below `0x20000`.
    pub open spec fn wf(&self) -> bool {
        &&& self.ids@.len() == self.handles@.len()
        &&& 0x20000 <= self.next_handle
        &&& forall|i: int| 0 <= i < self.ids@.len() ==> 0x20000 <= #[trigger] self.ids@[i] < self.next_handle
        &&& forall|i: int, j: int| 0 <= i < j < self.ids@.len() ==> #[trigger] self.ids@[i] != #[trigger] self.ids@[j]
    }

    /// No hooks; handles counted from `0x20000`.
    pub fn new() -> (r: Self)
        ensures
            r.next_handle == 0x20000,
            r.chains@.len() == 0,
            r.handles@.len() == 0,
            r.ids@.len() == 0,
            r.wf(),
    {
        HookTable { next_handle: 0x20000, chains: Vec::new(), handles: Vec::new(), ids: Vec::new() }
    }
}

/// Hook handles never repeat: in a well-formed table (as `new` makes it and
/// `install_hook` and `remove_hook` keep it while the counter has not run
/// out) no two slots carry the same handle, and the handle the next
/// installation gets is none of them.
pub proof fn lemma_hook_handles_unique(t: &HookTable, i: int, j: int)
    requires
        t.wf(),
        0 <= i < j < t.ids@.len(),
    ensures
        t.ids@[i] != t.ids@[j],
        !t.ids@.contains(t.next_handle),
{
    if t.ids@.contains(t.next_handle) {
        let k = choose|k: int| 0 <= k < t.ids@.len() && t.ids@[k] == t.next_handle;
        assert(t.ids@[k] < t.next_handle);
    }
}

/// Allocate a hook handle: the counter's value, which then moves on by one
/// (wrapping).
pub fn allocate_hook_handle(table: &mut HookTable) -> (r: u64)
    ensures
        r == old(table).next_handle,
        final(table).next_handle == old(table).next_handle.wrapping_add(1),
        final(table).chains@ == old(table).chains@,
        final(table).handles@ == old(table).handles@,
        final(table).ids@ == old(table).ids@,
{
    let h = table.next_handle;
    table.next_handle = table.next_handle.wrapping_add(1);
    h
}

/// A valid hook type.
pub open spec fn valid_hook_type(t: i32) -> bool {
    WH_MIN <= t <= WH_MAX
}

/// Install a hook: `None` for a hook type out of range; otherwise the next
/// handle, with the hook appended to the table (the slot recording that
/// handle) and its handle to the end of its type's chain (chains are grown
/// to reach it). On a well-formed table whose counter has not run out, the
/// handle is one the table never gave out before, and the table stays
/// well-formed.
pub fn install_hook(table: &mut HookTable, hook_type: i32, hook_proc: u64, thread_id: u32) -> (r: Option<u64>)
    ensures
        !valid_hook_type(hook_type) ==> r is None && final(table).next_handle == old(table).next_handle
            && final(table).chains@ == old(table).chains@ && final(table).handles@ == old(table).handles@
            && final(table).ids@ == old(table).ids@,
        valid_hook_type(hook_type) ==> {
            let ci = hook_type - WH_MIN;
            &&& r == Some(old(table).next_handle)
            &&& final(table).next_handle == old(table).next_handle.wrapping_add(1)
            &&& final(table).handles@ == old(table).handles@.push(Some(new_hook(hook_type, hook_proc, thread_id)))
            &&& final(table).ids@ == old(table).ids@.push(old(table).next_handle)
            &&& old(table).wf() && old(table).next_handle < u64::MAX ==> !old(table).ids@.contains(old(table).next_handle)
                && final(table).wf()
            &&& final(table).chains@.len() == if ci < old(table).chains@.len() { old(table).chains@.len() as int } else { ci + 1 }
            &&& chain_of(final(table), ci) == chain_of(old(table), ci).push(old(table).next_handle)
            &&& forall|j: int| 0 <= j < final(table).chains@.len() && j != ci ==> chain_of(final(table), j) == chain_of(old(table), j)
        },
{
    if hook_type < WH_MIN || hook_type > WH_MAX {
        return None;
    }
    let handle = allocate_hook_handle(table);
    table.handles.push(Some(Hook::new(hook_type, hook_proc, thread_id)));
    table.ids.push(handle);
    proof {
        if old(table).wf() && old(table).next_handle < u64::MAX {
            assert forall|i: int| 0 <= i < old(table).ids@.len() implies old(table).ids@[i] != handle by {
                assert(old(table).ids@[i] < old(table).next_handle);
            }
            assert(table.ids@.last() == handle);
        }
    }
    let chain_idx: usize = (hook_type - WH_MIN) as usize;
    let ghost before = table.chains@;
    while table.chains.len() <= chain_idx
        invariant
            chain_idx < 16,
            table.next_handle == old(table).next_handle.wrapping_add(1),
            table.handles@ == old(table).handles@.push(Some(new_hook(hook_type, hook_proc, thread_id))),
            table.ids@ == old(table).ids@.push(old(table).next_handle),
            before.len() <= table.chains@.len(),
            table.chains@.len() <= (if chain_idx < before.len() { before.len() as int } else { chain_idx + 1 }),
            forall|j: int| 0 <= j < table.chains@.len() ==>
                #[trigger] table.chains@[j]@ == if j < before.len() { before[j]@ } else { Seq::<u64>::empty() },
        decreases chain_idx + 1 - table.chains@.len(),
    {
        table.chains.push(Vec::new());
    }
    let ghost grown = table.chains@;
    let mut chain = Vec::new();
    table.chains.set_and_swap(chain_idx, &mut chain);
    chain.push(handle);
    table.chains.set_and_swap(chain_idx, &mut chain);
    proof {
        assert(chain_of(table, chain_idx as int) =~= chain_of(old(table), chain_idx as int).push(handle));
        assert forall|j: int| 0 <= j < table.chains@.len() && j != chain_idx implies
            chain_of(table, j) == chain_of(old(table), j) by {
            assert(table.chains@[j] == grown[j]);
        }
    }
    Some(handle)
}

/// Slot `i` holds an installed hook that was given `handle`.
pub open spec fn holds_hook(ids: Seq<u64>, hooks: Seq<Option<Hook>>, handle: u64, i: int) -> bool {
    0 <= i < ids.len() && i < hooks.len() && ids[i] == handle && hooks[i] is Some
}

/// The first slot holding an installed hook given `handle`.
pub open spec fn hook_slot(ids: Seq<u64>, hooks: Seq<Option<Hook>>, handle: u64) -> Option<int> {
    if exists|i: int| #[trigger] holds_hook(ids, hooks, handle, i) {
        Some(choose|i: int| #[trigger] holds_hook(ids, hooks, handle, i)
            && forall|j: int| 0 <= j < i ==> !holds_hook(ids, hooks, handle, j))
    } else {
        None
    }
}

/// The first such slot is the one a scan from the front finds.
proof fn lemma_hook_slot(ids: Seq<u64>, hooks: Seq<Option<Hook>>, handle: u64, i: int)
    requires
        holds_hook(ids, hooks, handle, i),
        forall|j: int| 0 <= j < i ==> !holds_hook(ids, hooks, handle, j),
    ensures
        hook_slot(ids, hooks, handle) == Some(i),
{
    let k = choose|k: int| #[trigger] holds_hook(ids, hooks, handle, k)
        && forall|j: int| 0 <= j < k ==> !holds_hook(ids, hooks, handle, j);
    assert(holds_hook(ids, hooks, handle, i));
    if k < i {
        assert(!holds_hook(ids, hooks, handle, k));
    }
    if k > i {
        assert(!holds_hook(ids, hooks, handle, i));
    }
}

/// `s` without the occurrences of `h`, the rest in order.
pub open spec fn without(s: Seq<u64>, h: u64) -> Seq<u64>
    decreases s.len(),
{
    if s.len() == 0 {
        s
    } else if s.last() == h {
        without(s.drop_last(), h)
    } else {
        without(s.drop_last(), h).push(s.last())
    }
}

/// A copy of `chain` without `handle`.
pub(crate) fn chain_without(chain: &Vec<u64>, handle: u64) -> (r: Vec<u64>)
    ensures
        r@ == without(chain@, handle),
{
    let mut out: Vec<u64> = Vec::new();
    let mut i: usize = 0;
    assert(chain@.take(0) =~= Seq::<u64>::empty());
    while i < chain.len()
        invariant
            i <= chain@.len(),
            out@ == without(chain@.take(i as int), handle),
        decreases chain@.len() - i,
    {
        assert(chain@.take(i + 1).drop_last() =~= chain@.take(i as int));
        if chain[i] != handle {
            out.push(chain[i]);
        }
        i = i + 1;
    }
    assert(chain@.take(chain@.len() as int) =~= chain@);
    out
}

/// Remove the hook that was given `handle`: its slot is emptied and
/// `handle` is taken out of the chain of that hook's type. False, with
/// nothing changed, when no installed hook has that handle. A hook of type
/// `i32::MAX` (its chain index overflows) is left out.
pub fn remove_hook(table: &mut HookTable, handle: u64) -> (r: bool)
    requires
        hook_slot(old(table).ids@, old(table).handles@, handle) matches Some(i)
            ==> old(table).handles@[i].unwrap().hook_type < i32::MAX,
    ensures
        final(table).next_handle == old(table).next_handle,
        final(table).ids@ == old(table).ids@,
        final(table).chains@.len() == old(table).chains@.len(),
        old(table).wf() ==> final(table).wf(),
        match hook_slot(old(table).ids@, old(table).handles@, handle) {
            None => !r && final(table).handles@ == old(table).handles@ && final(table).chains@ == old(table).chains@,
            Some(i) => {
                let ci = old(table).handles@[i].unwrap().hook_type - WH_MIN;
                &&& r
                &&& final(table).handles@ == old(table).handles@.update(i, None)
                &&& forall|j: int| 0 <= j < final(table).chains@.len() ==> #[trigger] chain_of(final(table), j) ==
                    if j == ci { without(chain_of(old(table), j), handle) } else { chain_of(old(table), j) }
            },
        },
{
    let ghost ids = table.ids@;
    let ghost hooks = table.handles@;
    let mut i: usize = 0;
    let mut found = false;
    let mut found_type: i32 = 0;
    while i < table.handles.len()
        invariant
            i <= table.handles@.len(),
            table.handles@ == hooks,
            table.ids@ == ids,
            hooks == old(table).handles@,
            ids == old(table).ids@,
            found ==> holds_hook(ids, hooks, handle, i as int) && hooks[i as int].unwrap().hook_type == found_type,
            forall|j: int| 0 <= j < i ==> !holds_hook(ids, hooks, handle, j),
        ensures
            found ==> holds_hook(ids, hooks, handle, i as int) && hooks[i as int].unwrap().hook_type == found_type,
            !found ==> forall|j: int| 0 <= j < hooks.len() ==> !holds_hook(ids, hooks, handle, j),
            forall|j: int| 0 <= j < i ==> !holds_hook(ids, hooks, handle, j),
        decreases table.handles@.len() - i,
    {
        if i < table.ids.len() && table.ids[i] == handle {
            match &table.handles[i] {
                Some(hook) => {
                    found = true;
                    found_type = hook.hook_type;
                    break;
                },
                None => {},
            }
        }
        i = i + 1;
    }
    if !found {
        proof {
            if hook_slot(ids, hooks, handle) is Some {
                let k = choose|k: int| #[trigger] holds_hook(ids, hooks, handle, k);
                assert(!holds_hook(ids, hooks, handle, k));
            }
        }
        return false;
    }
    proof {
        lemma_hook_slot(ids, hooks, handle, i as int);
    }
    table.handles.set(i, None);
    let ci: i64 = (found_type as i64) - (WH_MIN as i64);
    let ghost chains0 = table.chains@;
    if ci >= 0 && (ci as u64) < (table.chains.len() as u64) {
        let c = ci as usize;
        let newc = chain_without(&table.chains[c], handle);
        table.chains.set(c, newc);
        proof {
            assert forall|j: int| 0 <= j < table.chains@.len() implies #[trigger] chain_of(table, j) ==
                if j == ci { without(chain_of(old(table), j), handle) } else { chain_of(old(table), j) } by {
                if j != c {
                    assert(table.chains@[j] == chains0[j]);
                }
            }
        }
    }
    true
}

/// Call the hooks of a type: nothing is called here, and the result is 0.
pub fn call_hook_chain(table: &HookTable, hook_type: i32, code: i32, wparam: u64, lparam: i64) -> (r: i64)
    ensures
        r == 0,
{
    0
}

// =============================================================================
// Timers
// =============================================================================

pub const TMR_TIMER: u32 = 0x0001;
pub const TMR_PERIODIC: u32 = 0x0002;

/// Timer.
#[derive(Clone, Copy, Debug)]
pub struct UserTimer {
    pub hwnd: u64,
    pub n_id: u32,
    pub u_elapse: u32,
    pub timer_proc: u64,
    pub flags: u32,
}

/// The timer `UserTimer::new` builds.
pub open spec fn new_timer(hwnd: u64, n_id: u32, u_elapse: u32, timer_proc: u64) -> UserTimer {
    UserTimer { hwnd, n_id, u_elapse, timer_proc, flags: TMR_TIMER }
}

impl UserTimer {
    /// A plain (not periodic) timer.
    pub fn new(hwnd: u64, n_id: u32, u_elapse: u32, timer_proc: u64) -> (r: Self)
        ensures
            r == new_timer(hwnd, n_id, u_elapse, timer_proc),
    {
        UserTimer { hwnd, n_id, u_elapse, timer_proc, flags: TMR_TIMER }
    }
}

/// The ids of the timers of one window.
pub struct WindowTimers {
    pub hwnd: u64,
    pub ids: Vec<u32>,
}

/// The timers: the id counter, the timers in creation order (a killed
/// timer leaves an empty slot), and per window the ids of its timers.
pub struct TimerTable {
    pub next_id: u32,
    pub handles: Vec<Option<UserTimer>>,
    pub window_timers: Vec<WindowTimers>,
}

impl TimerTable {
    /// No timers; ids counted from 1.
    pub fn new() -> (r: Self)
        ensures
            r.next_id == 1,
            r.handles@.len() == 0,
            r.window_timers@.len() == 0,
            r.wf(),
    {
        TimerTable { next_id: 1, handles: Vec::new(), window_timers: Vec::new() }
    }

    /// Each window has at most one list of timer ids.
    pub open spec fn wf(&self) -> bool {
        forall|i: int, j: int| 0 <= i < j < self.window_timers@.len() ==>
            #[trigger] self.window_timers@[i].hwnd != #[trigger] self.window_timers@[j].hwnd
    }

    /// The ids recorded for window `hwnd`.
    pub open spec fn ids_of(&self, hwnd: u64) -> Seq<u32> {
        if exists|i: int| 0 <= i < self.window_timers@.len() && #[trigger] self.window_timers@[i].hwnd == hwnd {
            self.window_timers@[choose|i: int| 0 <= i < self.window_timers@.len() && #[trigger] self.window_timers@[i].hwnd == hwnd].ids@
        } else {
            Seq::empty()
        }
    }

    /// Window `hwnd` has a list of timer ids.
    pub open spec fn has_list(&self, hwnd: u64) -> bool {
        exists|i: int| 0 <= i < self.window_timers@.len() && #[trigger] self.window_timers@[i].hwnd == hwnd
    }
}

/// In a well-formed table, the list of a window is the one at its index.
proof fn lemma_ids_at(t: &TimerTable, i: int)
    requires
        t.wf(),
        0 <= i < t.window_timers@.len(),
    ensures
        t.has_list(t.window_timers@[i].hwnd),
        t.ids_of(t.window_timers@[i].hwnd) == t.window_timers@[i].ids@,
{
    let h = t.window_timers@[i].hwnd;
    assert(t.window_timers@[i].hwnd == h);
    let k = choose|k: int| 0 <= k < t.window_timers@.len() && #[trigger] t.window_timers@[k].hwnd == h;
    if k != i {
        if k < i {
            assert(t.window_timers@[k].hwnd != t.window_timers@[i].hwnd);
        } else {
            assert(t.window_timers@[i].hwnd != t.window_timers@[k].hwnd);
        }
    }
}

/// Allocate a timer id: the counter's value, which then moves on by one
/// (wrapping).
pub fn allocate_timer_id(t: &mut TimerTable) -> (r: u32)
    ensures
        r == old(t).next_id,
        final(t).next_id == old(t).next_id.wrapping_add(1),
        final(t).handles@ == old(t).handles@,
        final(t).window_timers@ == old(t).window_timers@,
{
    let id = t.next_id;
    t.next_id = t.next_id.wrapping_add(1);
    id
}

/// Index of the list of window `hwnd`, when it has one.
fn find_window_list(t: &TimerTable, hwnd: u64) -> (r: Option<usize>)
    requires
        t.wf(),
    ensures
        r matches Some(i) ==> i < t.window_timers@.len() && t.window_timers@[i as int].hwnd == hwnd,
        r is None <==> !t.has_list(hwnd),
{
    let mut i: usize = 0;
    while i < t.window_timers.len()
        invariant
            i <= t.window_timers@.len(),
            forall|j: int| 0 <= j < i ==> #[trigger] t.window_timers@[j].hwnd != hwnd,
        decreases t.window_timers@.len() - i,
    {
        if t.window_timers[i].hwnd == hwnd {
            return Some(i);
        }
        i = i + 1;
    }
    None
}

/// Create a timer for window `hwnd`: its id is `n_id_event`, or a fresh id
/// when that is 0. The timer is appended to the table and, for a window
/// (`hwnd != 0`), its id to the end of the window's list (a new list at
/// the end when the window has none). Always gives the id.
pub fn create_timer(t: &mut TimerTable, hwnd: u64, n_id_event: u32, u_elapse: u32, timer_proc: u64) -> (r: Option<u32>)
    requires
        old(t).wf(),
    ensures
        final(t).wf(),
        ({
            let id = if n_id_event == 0 { old(t).next_id } else { n_id_event };
            let w0 = old(t).window_timers@;
            let w1 = final(t).window_timers@;
            &&& r == Some(id)
            &&& final(t).next_id == if n_id_event == 0 { old(t).next_id.wrapping_add(1) } else { old(t).next_id }
            &&& final(t).handles@ == old(t).handles@.push(Some(new_timer(hwnd, id, u_elapse, timer_proc)))
            &&& hwnd == 0 ==> w1 == w0
            &&& (hwnd != 0 && old(t).has_list(hwnd)) ==> exists|i: int| {
                &&& 0 <= i < w0.len() && #[trigger] w0[i].hwnd == hwnd
                &&& w1.len() == w0.len() && w1[i].hwnd == hwnd && w1[i].ids@ == w0[i].ids@.push(id)
                &&& forall|j: int| 0 <= j < w0.len() && j != i ==> w1[j] == w0[j]
            }
            &&& (hwnd != 0 && !old(t).has_list(hwnd)) ==> {
                &&& w1.len() == w0.len() + 1
                &&& forall|j: int| 0 <= j < w0.len() ==> w1[j] == w0[j]
                &&& w1[w0.len() as int].hwnd == hwnd && w1[w0.len() as int].ids@ == seq![id]
            }
        }),
{
    let timer_id = if n_id_event == 0 { allocate_timer_id(t) } else { n_id_event };
    t.handles.push(Some(UserTimer::new(hwnd, timer_id, u_elapse, timer_proc)));
    let ghost before = t.window_timers@;
    if hwnd != 0 {
        match find_window_list(t, hwnd) {
            Some(i) => {
                let mut entry = WindowTimers { hwnd: 0, ids: Vec::new() };
                t.window_timers.set_and_swap(i, &mut entry);
                entry.ids.push(timer_id);
                t.window_timers.set_and_swap(i, &mut entry);
                proof {
                    assert forall|a: int, b: int| 0 <= a < b < t.window_timers@.len() implies
                        #[trigger] t.window_timers@[a].hwnd != #[trigger] t.window_timers@[b].hwnd by {
                        assert(before[a].hwnd != before[b].hwnd);
                    }
                    assert(before[i as int].hwnd == hwnd);
                }
            },
            None => {
                let mut ids = Vec::new();
                ids.push(timer_id);
                t.window_timers.push(WindowTimers { hwnd, ids });
                proof {
                    let n = before.len() as int;
                    assert forall|a: int, b: int| 0 <= a < b < t.window_timers@.len() implies
                        #[trigger] t.window_timers@[a].hwnd != #[trigger] t.window_timers@[b].hwnd by {
                        if b < n {
                            assert(before[a].hwnd != before[b].hwnd);
                        } else {
                            assert(t.window_timers@[a] == before[a]);
                            assert(!(before[a].hwnd == hwnd));
                        }
                    }
                    assert(t.window_timers@[n].ids@ =~= seq![timer_id]);
                }
            },
        }
    }
    Some(timer_id)
}

/// The timer in slot `h` belongs to `hwnd` and, unless `n_id` is 0, has id
/// `n_id`.
pub open spec fn timer_matches(h: Option<UserTimer>, hwnd: u64, n_id: u32) -> bool {
    h matches Some(x) && x.hwnd == hwnd && (n_id == 0 || x.n_id == n_id)
}

/// `s` without the occurrences of `v`, the rest in order.
pub open spec fn without_id(s: Seq<u32>, v: u32) -> Seq<u32>
    decreases s.len(),
{
    if s.len() == 0 {
        s
    } else if s.last() == v {
        without_id(s.drop_last(), v)
    } else {
        without_id(s.drop_last(), v).push(s.last())
    }
}

/// A copy of `ids` without `v`.
fn ids_without(ids: &Vec<u32>, v: u32) -> (r: Vec<u32>)
    ensures
        r@ == without_id(ids@, v),
{
    let mut out: Vec<u32> = Vec::new();
    let mut i: usize = 0;
    assert(ids@.take(0) =~= Seq::<u32>::empty());
    while i < ids.len()
        invariant
            i <= ids@.len(),
            out@ == without_id(ids@.take(i as int), v),
        decreases ids@.len() - i,
    {
        assert(ids@.take(i + 1).drop_last() =~= ids@.take(i as int));
        if ids[i] != v {
            out.push(ids[i]);
        }
        i = i + 1;
    }
    assert(ids@.take(ids@.len() as int) =~= ids@);
    out
}

/// Kill a timer: the first one that belongs to `hwnd` and has id
/// `n_id_event` (any id, when that is 0). Its slot is emptied and, for a
/// window, its id is taken out of the window's list. False, with nothing
/// changed, when no timer matches.
pub fn kill_timer(t: &mut TimerTable, hwnd: u64, n_id_event: u32) -> (r: bool)
    requires
        old(t).wf(),
    ensures
        final(t).wf(),
        final(t).next_id == old(t).next_id,
        r <==> exists|i: int| 0 <= i < old(t).handles@.len() && #[trigger] timer_matches(old(t).handles@[i], hwnd, n_id_event),
        !r ==> final(t).handles@ == old(t).handles@ && final(t).window_timers@ == old(t).window_timers@,
        r ==> exists|i: int| {
            &&& 0 <= i < old(t).handles@.len()
            &&& #[trigger] timer_matches(old(t).handles@[i], hwnd, n_id_event)
            &&& forall|j: int| 0 <= j < i ==> !timer_matches(old(t).handles@[j], hwnd, n_id_event)
            &&& final(t).handles@ == old(t).handles@.update(i, None)
            &&& hwnd != 0 ==> final(t).ids_of(hwnd) == without_id(old(t).ids_of(hwnd), old(t).handles@[i].unwrap().n_id)
            &&& forall|w: u64| w != hwnd || hwnd == 0 ==> #[trigger] final(t).ids_of(w) == old(t).ids_of(w)
        },
{
    let mut i: usize = 0;
    while i < t.handles.len()
        invariant
            i <= t.handles@.len(),
            t.handles@ == old(t).handles@,
            t.window_timers@ == old(t).window_timers@,
            t.next_id == old(t).next_id,
            t.wf(),
            forall|j: int| 0 <= j < i ==> !timer_matches(#[trigger] t.handles@[j], hwnd, n_id_event),
        decreases t.handles@.len() - i,
    {
        let hit: Option<u32> = match &t.handles[i] {
            Some(timer) => {
                if timer.hwnd == hwnd && (n_id_event == 0 || timer.n_id == n_id_event) {
                    Some(timer.n_id)
                } else {
                    None
                }
            },
            None => None,
        };
        match hit {
            Some(timer_n_id) => {
                let ghost i0 = i as int;
                assert(timer_matches(old(t).handles@[i0], hwnd, n_id_event));
                t.handles.set(i, None);
                let ghost wt0 = t.window_timers@;
                if hwnd != 0 {
                    match find_window_list(t, hwnd) {
                        Some(k) => {
                            let newids = ids_without(&t.window_timers[k].ids, timer_n_id);
                            let mut entry = WindowTimers { hwnd, ids: newids };
                            t.window_timers.set_and_swap(k, &mut entry);
                            proof {
                                assert forall|a: int, b: int| 0 <= a < b < t.window_timers@.len() implies
                                    #[trigger] t.window_timers@[a].hwnd != #[trigger] t.window_timers@[b].hwnd by {
                                    assert(wt0[a].hwnd != wt0[b].hwnd);
                                }
                                lemma_ids_at(t, k as int);
                                lemma_ids_at(old(t), k as int);
                                assert forall|w: u64| w != hwnd implies #[trigger] t.ids_of(w) == old(t).ids_of(w) by {
                                    if old(t).has_list(w) {
                                        let m = choose|m: int| 0 <= m < wt0.len() && #[trigger] wt0[m].hwnd == w;
                                        assert(wt0[m].hwnd == w);
                                        lemma_ids_at(old(t), m);
                                        assert(t.window_timers@[m] == wt0[m]);
                                        lemma_ids_at(t, m);
                                    } else {
                                        if t.has_list(w) {
                                            let m = choose|m: int| 0 <= m < t.window_timers@.len() && #[trigger] t.window_timers@[m].hwnd == w;
                                            assert(t.window_timers@[m] == wt0[m]);
                                            assert(wt0[m].hwnd == w);
                                        }
                                    }
                                }
                            }
                        },
                        None => {
                            proof {
                                assert(old(t).ids_of(hwnd) =~= Seq::<u32>::empty());
                                assert(without_id(Seq::<u32>::empty(), timer_n_id) =~= Seq::<u32>::empty());
                            }
                        },
                    }
                }
                assert(forall|j: int| 0 <= j < i0 ==> !timer_matches(old(t).handles@[j], hwnd, n_id_event));
                return true;
            },
            None => {},
        }
        i = i + 1;
    }
    false
}

/// The slot holds a timer with id `id`.
pub open spec fn has_id(h: Option<UserTimer>, id: u32) -> bool {
    h matches Some(x) && x.n_id == id
}

/// A copy of the first timer with id `timer_id`.
pub fn get_timer(t: &TimerTable, timer_id: u32) -> (r: Option<UserTimer>)
    ensures
        match r {
            Some(x) => exists|i: int| 0 <= i < t.handles@.len() && t.handles@[i] == Some(x) && x.n_id == timer_id
                && forall|j: int| 0 <= j < i ==> !has_id(#[trigger] t.handles@[j], timer_id),
            None => forall|i: int| 0 <= i < t.handles@.len() ==> !has_id(#[trigger] t.handles@[i], timer_id),
        },
{
    let mut i: usize = 0;
    while i < t.handles.len()
        invariant
            i <= t.handles@.len(),
            forall|j: int| 0 <= j < i ==> !has_id(#[trigger] t.handles@[j], timer_id),
        decreases t.handles@.len() - i,
    {
        match &t.handles[i] {
            Some(x) => {
                if x.n_id == timer_id {
                    let found = *x;
                    assert(t.handles@[i as int] == Some(found));
                    return Some(found);
                }
            },
            None => {},
        }
        i = i + 1;
    }
    None
}

/// The timer's expiry, with the timer id as context: true when the timer
/// exists and would post `WM_TIMER` to its window (it has a window and a
/// procedure).
pub fn timer_dpc_callback(t: &TimerTable, context: usize) -> (r: bool)
    ensures
        r <==> exists|i: int| 0 <= i < t.handles@.len() && has_id(#[trigger] t.handles@[i], context as u32)
            && (forall|j: int| 0 <= j < i ==> !has_id(t.handles@[j], context as u32))
            && t.handles@[i].unwrap().hwnd != 0 && t.handles@[i].unwrap().timer_proc != 0,
{
    let timer_id = context as u32;
    match get_timer(t, timer_id) {
        Some(timer) => {
            proof {
                let i = choose|i: int| 0 <= i < t.handles@.len() && t.handles@[i] == Some(timer) && timer.n_id == timer_id
                    && forall|j: int| 0 <= j < i ==> !has_id(#[trigger] t.handles@[j], timer_id);
                if timer.hwnd != 0 && timer.timer_proc != 0 {
                    assert(has_id(t.handles@[i], context as u32));
                } else {
                    assert forall|k: int| 0 <= k < t.handles@.len() && has_id(#[trigger] t.handles@[k], context as u32)
                        && (forall|j: int| 0 <= j < k ==> !has_id(t.handles@[j], context as u32))
                        implies !(t.handles@[k].unwrap().hwnd != 0 && t.handles@[k].unwrap().timer_proc != 0) by {
                        if k < i {
                            assert(!has_id(t.handles@[k], timer_id));
                        } else if k > i {
                            assert(has_id(t.handles@[i], timer_id));
                        }
                    }
                }
            }
            timer.hwnd != 0 && timer.timer_proc != 0
        },
        None => false,
    }
}

} // verus!
