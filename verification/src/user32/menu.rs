//! Menus: a table of 256 menus, each with up to 64 items. A menu handle
//! is its slot plus one; 0 is null.

use vstd::prelude::*;
use crate::user32::types::{HMENU, HWND, HBITMAP};
use crate::rpcrt4::wstr::{wlen, wstr, wstrlen, lemma_wlen};

verus! {

pub const MF_INSERT: u32 = 0x0000;
pub const MF_CHANGE: u32 = 0x0080;
pub const MF_APPEND: u32 = 0x0100;
pub const MF_DELETE: u32 = 0x0200;
pub const MF_REMOVE: u32 = 0x1000;
pub const MF_BYCOMMAND: u32 = 0x0000;
pub const MF_BYPOSITION: u32 = 0x0400;
pub const MF_SEPARATOR: u32 = 0x0800;
pub const MF_ENABLED: u32 = 0x0000;
pub const MF_GRAYED: u32 = 0x0001;
pub const MF_DISABLED: u32 = 0x0002;
pub const MF_UNCHECKED: u32 = 0x0000;
pub const MF_CHECKED: u32 = 0x0008;
pub const MF_STRING: u32 = 0x0000;
pub const MF_BITMAP: u32 = 0x0004;
pub const MF_OWNERDRAW: u32 = 0x0100;
pub const MF_POPUP: u32 = 0x0010;
pub const MF_MENUBARBREAK: u32 = 0x0020;
pub const MF_MENUBREAK: u32 = 0x0040;

/// How many menus the table holds.
pub const MAX_MENUS: usize = 256;

/// How many items a menu holds.
pub const MAX_MENU_ITEMS: usize = 64;

/// What a menu item is described by.
pub struct MENUITEMINFOW {
    pub cb_size: u32,
    pub f_mask: u32,
    pub f_type: u32,
    pub f_state: u32,
    pub w_id: u32,
    pub h_sub_menu: HMENU,
    pub hbmp_checked: HBITMAP,
    pub hbmp_unchecked: HBITMAP,
    pub dw_item_data: usize,
    pub dw_type_data: u64,
    pub cch: u32,
    pub hbmp_item: HBITMAP,
}

/// A menu item: its command, its text (terminated), its flags, and its
/// submenu.
#[derive(Clone, Copy)]
pub struct MenuItem {
    pub id: u32,
    pub text: [u16; 256],
    pub flags: u32,
    pub submenu: HMENU,
}

impl MenuItem {
    /// An empty item.
    pub fn new() -> (r: Self)
        ensures
            r.id == 0 && r.flags == 0 && r.submenu == 0,
            r.text@ == Seq::new(256, |i: int| 0u16),
    {
        let r = MenuItem { id: 0, text: [0u16; 256], flags: 0, submenu: 0 };
        assert(r.text@ =~= Seq::new(256, |i: int| 0u16));
        r
    }
}

/// A menu: its item slots, how many are in use, and whether it pops up.
pub struct Menu {
    pub items: Vec<MenuItem>,
    pub count: usize,
    pub is_popup: bool,
}

impl Menu {
    /// A menu with no items.
    pub fn new(is_popup: bool) -> (r: Self)
        ensures
            r.items@.len() == MAX_MENU_ITEMS,
            r.count == 0,
            r.is_popup == is_popup,
    {
        let mut items: Vec<MenuItem> = Vec::new();
        let mut i: usize = 0;
        while i < MAX_MENU_ITEMS
            invariant
                i <= MAX_MENU_ITEMS,
                items@.len() == i,
            decreases MAX_MENU_ITEMS - i,
        {
            items.push(MenuItem::new());
            i = i + 1;
        }
        Menu { items, count: 0, is_popup }
    }

    /// The menu has its slots and counts within them.
    pub open spec fn wf(&self) -> bool {
        self.items@.len() == MAX_MENU_ITEMS && self.count <= MAX_MENU_ITEMS
    }
}

/// The menus, one per slot.
pub struct MenuTable {
    pub menus: Vec<Option<Menu>>,
}

impl MenuTable {
    /// The table has its slots, and every menu in it is well formed.
    pub open spec fn wf(&self) -> bool {
        &&& self.menus@.len() == MAX_MENUS
        &&& forall|i: int| 0 <= i < MAX_MENUS ==> (#[trigger] self.menus@[i] matches Some(m) ==> m.wf())
    }

    /// An empty table.
    pub fn new() -> (r: Self)
        ensures
            r.wf(),
            forall|i: int| 0 <= i < MAX_MENUS ==> #[trigger] r.menus@[i] is None,
    {
        let mut menus: Vec<Option<Menu>> = Vec::new();
        let mut i: usize = 0;
        while i < MAX_MENUS
            invariant
                i <= MAX_MENUS,
                menus@.len() == i,
                forall|j: int| 0 <= j < i ==> #[trigger] menus@[j] is None,
            decreases MAX_MENUS - i,
        {
            menus.push(None);
            i = i + 1;
        }
        MenuTable { menus }
    }

    /// The menu a handle names, if any.
    pub open spec fn menu_at(&self, h: HMENU) -> Option<Menu> {
        if 1 <= h <= MAX_MENUS { self.menus@[h - 1] } else { None }
    }
}

/// `i` is the first free slot of the table.
pub open spec fn first_free_menu(s: Seq<Option<Menu>>, i: int) -> bool {
    0 <= i < s.len() && s[i] is None && forall|j: int| 0 <= j < i ==> #[trigger] s[j] is Some
}

fn create_menu_of(table: &mut MenuTable, is_popup: bool) -> (r: HMENU)
    requires
        old(table).wf(),
    ensures
        final(table).wf(),
        r == 0 ==> (forall|j: int| 0 <= j < MAX_MENUS ==> #[trigger] old(table).menus@[j] is Some)
            && final(table).menus@ == old(table).menus@,
        r != 0 ==> first_free_menu(old(table).menus@, r - 1)
            && final(table).menus@.len() == MAX_MENUS
            && (forall|j: int| 0 <= j < MAX_MENUS && j != r - 1 ==> #[trigger] final(table).menus@[j] == old(table).menus@[j])
            && (final(table).menus@[r - 1] matches Some(m) && m.count == 0 && m.is_popup == is_popup),
{
    let mut i: usize = 0;
    while i < MAX_MENUS
        invariant
            i <= MAX_MENUS,
            table.wf(),
            table.menus@ == old(table).menus@,
            forall|j: int| 0 <= j < i ==> #[trigger] table.menus@[j] is Some,
        decreases MAX_MENUS - i,
    {
        if table.menus[i].is_none() {
            let m = Menu::new(is_popup);
            table.menus.set(i, Some(m));
            proof {
                assert(first_free_menu(old(table).menus@, i as int));
            }
            return (i + 1) as u64;
        }
        i = i + 1;
    }
    0
}

/// Make a menu bar in the first free slot: its handle, or 0 when the
/// table is full.
#[allow(non_snake_case)]
pub fn CreateMenu(table: &mut MenuTable) -> (r: HMENU)
    requires
        old(table).wf(),
    ensures
        final(table).wf(),
        r == 0 ==> (forall|j: int| 0 <= j < MAX_MENUS ==> #[trigger] old(table).menus@[j] is Some)
            && final(table).menus@ == old(table).menus@,
        r != 0 ==> first_free_menu(old(table).menus@, r - 1)
            && (forall|j: int| 0 <= j < MAX_MENUS && j != r - 1 ==> #[trigger] final(table).menus@[j] == old(table).menus@[j])
            && (final(table).menus@[r - 1] matches Some(m) && m.count == 0 && !m.is_popup),
{
    create_menu_of(table, false)
}

/// Make a pop-up menu in the first free slot: its handle, or 0 when the
/// table is full.
#[allow(non_snake_case)]
pub fn CreatePopupMenu(table: &mut MenuTable) -> (r: HMENU)
    requires
        old(table).wf(),
    ensures
        final(table).wf(),
        r == 0 ==> (forall|j: int| 0 <= j < MAX_MENUS ==> #[trigger] old(table).menus@[j] is Some)
            && final(table).menus@ == old(table).menus@,
        r != 0 ==> first_free_menu(old(table).menus@, r - 1)
            && (forall|j: int| 0 <= j < MAX_MENUS && j != r - 1 ==> #[trigger] final(table).menus@[j] == old(table).menus@[j])
            && (final(table).menus@[r - 1] matches Some(m) && m.count == 0 && m.is_popup),
{
    create_menu_of(table, true)
}

/// Free the slot a handle names (whether or not it held a menu): 1; 0,
/// with nothing changed, for a null handle or one past the table.
#[allow(non_snake_case)]
pub fn DestroyMenu(table: &mut MenuTable, h_menu: HMENU) -> (r: i32)
    requires
        old(table).wf(),
    ensures
        final(table).wf(),
        r == (if 1 <= h_menu <= MAX_MENUS { 1i32 } else { 0i32 }),
        r == 1 ==> final(table).menus@ == old(table).menus@.update(h_menu - 1, None),
        r == 0 ==> final(table).menus@ == old(table).menus@,
{
    if h_menu == 0 || h_menu > MAX_MENUS as u64 {
        return 0;
    }
    table.menus.set((h_menu - 1) as usize, None);
    1
}

/// The text an item gets: up to 255 units of the string given, unless
/// there is none or the item opens a submenu.
pub open spec fn item_text(new_item: Option<Seq<u16>>, flags: u32) -> Seq<u16> {
    match new_item {
        Some(s) => if flags & MF_POPUP == 0 {
            let n = if wlen(s) < 255 { wlen(s) } else { 255 };
            Seq::new(256, |i: int| if i < n { s[i] } else { 0u16 })
        } else {
            Seq::new(256, |i: int| 0u16)
        },
        None => Seq::new(256, |i: int| 0u16),
    }
}

/// The item made for command `id` with these flags and text.
pub open spec fn made_item(x: MenuItem, id: usize, flags: u32, new_item: Option<Seq<u16>>) -> bool {
    x.id == id as u32 && x.flags == flags && x.submenu == 0 && x.text@ == item_text(new_item, flags)
}

pub open spec fn opt_view(s: Option<&[u16]>) -> Option<Seq<u16>> {
    match s {
        Some(x) => Some(x@),
        None => None,
    }
}

fn make_item(id: usize, flags: u32, new_item: Option<&[u16]>) -> (r: MenuItem)
    ensures
        made_item(r, id, flags, opt_view(new_item)),
{
    let mut item = MenuItem::new();
    item.id = id as u32;
    item.flags = flags;
    if let Some(s) = new_item {
        if flags & MF_POPUP == 0 {
            let len = wstrlen(s);
            proof {
                lemma_wlen(s@);
            }
            let n: usize = if len < 255 { len } else { 255 };
            let mut i: usize = 0;
            while i < n
                invariant
                    i <= n,
                    n <= 255,
                    n <= s@.len(),
                    item.text@.len() == 256,
                    item.id == id as u32 && item.flags == flags && item.submenu == 0,
                    forall|k: int| 0 <= k < 256 ==> #[trigger] item.text@[k] == if k < i { s@[k] } else { 0u16 },
                decreases n - i,
            {
                item.text[i] = s[i];
                i = i + 1;
            }
            proof {
                assert(item.text@ =~= item_text(opt_view(new_item), flags));
            }
        } else {
            assert(item.text@ =~= item_text(opt_view(new_item), flags));
        }
    } else {
        assert(item.text@ =~= item_text(opt_view(new_item), flags));
    }
    item
}

/// The first of the first `count` items with command `id`, or `count`.
pub open spec fn position_of_id(items: Seq<MenuItem>, count: int, id: u32, i: int) -> int
    decreases count - i,
{
    if i >= count {
        count
    } else if items[i].id == id {
        i
    } else {
        position_of_id(items, count, id, i + 1)
    }
}

/// The position an insert or delete works at: `position` itself when the
/// flags say by position, else the first item with that command (or the
/// end).
pub open spec fn target_pos(m: Menu, position: u32, flags: u32) -> int {
    if flags & MF_BYPOSITION != 0 { position as int } else { position_of_id(m.items@, m.count as int, position, 0) }
}

fn find_pos(m: &Menu, position: u32, flags: u32) -> (r: usize)
    requires
        m.wf(),
    ensures
        r == target_pos(*m, position, flags),
        flags & MF_BYPOSITION == 0 ==> r <= m.count,
{
    if flags & MF_BYPOSITION != 0 {
        return position as usize;
    }
    let mut i: usize = 0;
    while i < m.count
        invariant
            m.wf(),
            i <= m.count,
            flags & MF_BYPOSITION == 0,
            position_of_id(m.items@, m.count as int, position, 0) == position_of_id(m.items@, m.count as int, position, i as int),
        decreases m.count - i,
    {
        if m.items[i].id == position {
            return i;
        }
        i = i + 1;
    }
    m.count
}

fn take_menu(table: &mut MenuTable, idx: usize) -> (r: Option<Menu>)
    requires
        old(table).wf(),
        idx < MAX_MENUS,
    ensures
        r == old(table).menus@[idx as int],
        final(table).menus@ == old(table).menus@.remove(idx as int),
{
    table.menus.remove(idx)
}

fn put_menu(table: &mut MenuTable, idx: usize, m: Option<Menu>)
    requires
        old(table).menus@.len() == MAX_MENUS - 1,
        idx < MAX_MENUS,
    ensures
        final(table).menus@ == old(table).menus@.insert(idx as int, m),
{
    table.menus.insert(idx, m);
}

proof fn lemma_menu_put_back(a: Seq<Option<Menu>>, idx: int, m: Option<Menu>)
    requires
        0 <= idx < a.len(),
    ensures
        a.remove(idx).insert(idx, m) == a.update(idx, m),
{
    assert(a.remove(idx).insert(idx, m) =~= a.update(idx, m));
}

/// The items after `x` goes in at `pos` of the first `count`, the ones
/// from `pos` on moving up one slot.
pub open spec fn inserted_items(s: Seq<MenuItem>, count: int, pos: int, x: MenuItem) -> Seq<MenuItem> {
    s.take(pos) + seq![x] + s.subrange(pos, count) + s.subrange(count + 1, s.len() as int)
}

/// The items after the one at `pos` of the first `count` goes, the ones
/// after it moving down one slot.
pub open spec fn deleted_items(s: Seq<MenuItem>, count: int, pos: int) -> Seq<MenuItem> {
    s.take(pos) + s.subrange(pos + 1, count) + s.subrange(count - 1, s.len() as int)
}

/// Whether a handle names a menu with room for one more item.
pub open spec fn has_room(table: &MenuTable, h: HMENU) -> bool {
    table.menu_at(h) matches Some(m) && m.count < MAX_MENU_ITEMS
}

/// Add an item for command `id` at the end of the menu a handle names:
/// 1; 0, with nothing changed, for a handle that names no menu or a full
/// menu. The item's text is the string given (up to 255 units) unless
/// it opens a submenu.
#[allow(non_snake_case)]
pub fn AppendMenuW(table: &mut MenuTable, h_menu: HMENU, u_flags: u32, u_id_new_item: usize, lp_new_item: Option<&[u16]>) -> (r: i32)
    requires
        old(table).wf(),
    ensures
        final(table).wf(),
        r == (if has_room(old(table), h_menu) { 1i32 } else { 0i32 }),
        r == 0 ==> final(table).menus@ == old(table).menus@,
        r == 1 ==> ({
            let m = old(table).menu_at(h_menu).unwrap();
            &&& final(table).menus@.len() == MAX_MENUS
            &&& forall|j: int| 0 <= j < MAX_MENUS && j != h_menu - 1 ==> #[trigger] final(table).menus@[j] == old(table).menus@[j]
            &&& final(table).menus@[h_menu - 1] matches Some(m2) && m2.count == m.count + 1 && m2.is_popup == m.is_popup
                && m2.items@.len() == MAX_MENU_ITEMS
                && m2.items@ == m.items@.update(m.count as int, m2.items@[m.count as int])
                && made_item(m2.items@[m.count as int], u_id_new_item, u_flags, opt_view(lp_new_item))
        }),
{
    if h_menu == 0 || h_menu > MAX_MENUS as u64 {
        return 0;
    }
    let idx = (h_menu - 1) as usize;
    let ghost s0 = table.menus@;
    match take_menu(table, idx) {
        None => {
            put_menu(table, idx, None);
            proof {
                lemma_menu_put_back(s0, idx as int, None);
                assert(table.menus@ =~= s0);
            }
            0
        },
        Some(mut m) => {
            assert(m.wf());
            if m.count >= MAX_MENU_ITEMS {
                let ghost mm = m;
                put_menu(table, idx, Some(m));
                proof {
                    lemma_menu_put_back(s0, idx as int, Some(mm));
                    assert(table.menus@ =~= s0);
                }
                return 0;
            }
            let item = make_item(u_id_new_item, u_flags, lp_new_item);
            let c = m.count;
            m.items.set(c, item);
            m.count = c + 1;
            let ghost mm = m;
            put_menu(table, idx, Some(m));
            proof {
                lemma_menu_put_back(s0, idx as int, Some(mm));
            }
            1
        },
    }
}

/// Put an item for command `id` into the menu a handle names, at the
/// position given or before the first item with that command (at the
/// end when there is none): 1; 0, with nothing changed, for a handle that
/// names no menu, a full menu, or a position past the end.
#[allow(non_snake_case)]
pub fn InsertMenuW(table: &mut MenuTable, h_menu: HMENU, u_position: u32, u_flags: u32, u_id_new_item: usize,
    lp_new_item: Option<&[u16]>) -> (r: i32)
    requires
        old(table).wf(),
    ensures
        final(table).wf(),
        r == (if has_room(old(table), h_menu)
            && target_pos(old(table).menu_at(h_menu).unwrap(), u_position, u_flags) <= old(table).menu_at(h_menu).unwrap().count {
            1i32
        } else {
            0i32
        }),
        r == 0 ==> final(table).menus@ == old(table).menus@,
        r == 1 ==> ({
            let m = old(table).menu_at(h_menu).unwrap();
            let pos = target_pos(m, u_position, u_flags);
            &&& final(table).menus@.len() == MAX_MENUS
            &&& forall|j: int| 0 <= j < MAX_MENUS && j != h_menu - 1 ==> #[trigger] final(table).menus@[j] == old(table).menus@[j]
            &&& final(table).menus@[h_menu - 1] matches Some(m2) && m2.count == m.count + 1 && m2.is_popup == m.is_popup
                && m2.items@ == inserted_items(m.items@, m.count as int, pos, m2.items@[pos])
                && made_item(m2.items@[pos], u_id_new_item, u_flags, opt_view(lp_new_item))
        }),
{
    if h_menu == 0 || h_menu > MAX_MENUS as u64 {
        return 0;
    }
    let idx = (h_menu - 1) as usize;
    let ghost s0 = table.menus@;
    match take_menu(table, idx) {
        None => {
            put_menu(table, idx, None);
            proof {
                lemma_menu_put_back(s0, idx as int, None);
                assert(table.menus@ =~= s0);
            }
            0
        },
        Some(mut m) => {
            assert(m.wf());
            let ghost m0 = m;
            let pos = find_pos(&m, u_position, u_flags);
            if m.count >= MAX_MENU_ITEMS || pos > m.count {
                put_menu(table, idx, Some(m));
                proof {
                    lemma_menu_put_back(s0, idx as int, Some(m0));
                    assert(table.menus@ =~= s0);
                }
                return 0;
            }
            let count = m.count;
            let mut i = count;
            while i > pos
                invariant
                    pos <= i <= count,
                    count < MAX_MENU_ITEMS,
                    m.items@.len() == MAX_MENU_ITEMS,
                    m.count == count && m.is_popup == m0.is_popup,
                    forall|k: int| 0 <= k < MAX_MENU_ITEMS ==> #[trigger] m.items@[k] ==
                        if i < k <= count { m0.items@[k - 1] } else { m0.items@[k] },
                decreases i - pos,
            {
                let prev = m.items[i - 1];
                m.items.set(i, prev);
                i = i - 1;
            }
            let item = make_item(u_id_new_item, u_flags, lp_new_item);
            m.items.set(pos, item);
            m.count = count + 1;
            proof {
                assert(m.items@ =~= inserted_items(m0.items@, count as int, pos as int, item));
            }
            let ghost mm = m;
            put_menu(table, idx, Some(m));
            proof {
                lemma_menu_put_back(s0, idx as int, Some(mm));
            }
            1
        },
    }
}

/// Take out the item of the menu a handle names at the position given or
/// the first with that command: 1; 0, with nothing changed, for a handle
/// that names no menu or when there is no such item.
#[allow(non_snake_case)]
pub fn DeleteMenu(table: &mut MenuTable, h_menu: HMENU, u_position: u32, u_flags: u32) -> (r: i32)
    requires
        old(table).wf(),
    ensures
        final(table).wf(),
        r == (if old(table).menu_at(h_menu) is Some
            && target_pos(old(table).menu_at(h_menu).unwrap(), u_position, u_flags) < old(table).menu_at(h_menu).unwrap().count {
            1i32
        } else {
            0i32
        }),
        r == 0 ==> final(table).menus@ == old(table).menus@,
        r == 1 ==> ({
            let m = old(table).menu_at(h_menu).unwrap();
            let pos = target_pos(m, u_position, u_flags);
            &&& final(table).menus@.len() == MAX_MENUS
            &&& forall|j: int| 0 <= j < MAX_MENUS && j != h_menu - 1 ==> #[trigger] final(table).menus@[j] == old(table).menus@[j]
            &&& final(table).menus@[h_menu - 1] matches Some(m2) && m2.count == m.count - 1 && m2.is_popup == m.is_popup
                && m2.items@ == deleted_items(m.items@, m.count as int, pos)
        }),
{
    if h_menu == 0 || h_menu > MAX_MENUS as u64 {
        return 0;
    }
    let idx = (h_menu - 1) as usize;
    let ghost s0 = table.menus@;
    match take_menu(table, idx) {
        None => {
            put_menu(table, idx, None);
            proof {
                lemma_menu_put_back(s0, idx as int, None);
                assert(table.menus@ =~= s0);
            }
            0
        },
        Some(mut m) => {
            assert(m.wf());
            let ghost m0 = m;
            let pos = find_pos(&m, u_position, u_flags);
            if pos >= m.count {
                put_menu(table, idx, Some(m));
                proof {
                    lemma_menu_put_back(s0, idx as int, Some(m0));
                    assert(table.menus@ =~= s0);
                }
                return 0;
            }
            let count = m.count;
            let mut i = pos;
            while i < count - 1
                invariant
                    pos <= i <= count - 1,
                    0 < count <= MAX_MENU_ITEMS,
                    m.items@.len() == MAX_MENU_ITEMS,
                    m.count == count && m.is_popup == m0.is_popup,
                    forall|k: int| 0 <= k < MAX_MENU_ITEMS ==> #[trigger] m.items@[k] ==
                        if pos <= k < i { m0.items@[k + 1] } else { m0.items@[k] },
                decreases count - 1 - i,
            {
                let next = m.items[i + 1];
                m.items.set(i, next);
                i = i + 1;
            }
            m.count = count - 1;
            proof {
                assert(m.items@ =~= deleted_items(m0.items@, count as int, pos as int));
            }
            let ghost mm = m;
            put_menu(table, idx, Some(m));
            proof {
                lemma_menu_put_back(s0, idx as int, Some(mm));
            }
            1
        },
    }
}

/// Describe a menu item: nothing is described; 0.
#[allow(non_snake_case)]
pub fn GetMenuItemInfoW(h_menu: HMENU, u_item: u32, f_by_position: i32, lpmii: Option<&MENUITEMINFOW>) -> (r: i32)
    ensures
        r == 0,
{
    0
}

/// Change a menu item: 0 for a null menu or no description, else 1 (the
/// item is not changed).
#[allow(non_snake_case)]
pub fn SetMenuItemInfoW(h_menu: HMENU, u_item: u32, f_by_position: i32, lpmii: Option<&MENUITEMINFOW>) -> (r: i32)
    ensures
        r == (if h_menu == 0 || lpmii is None { 0i32 } else { 1i32 }),
{
    if h_menu == 0 || lpmii.is_none() { 0 } else { 1 }
}

/// Show a pop-up menu and track it: no command is ever chosen; 0.
#[allow(non_snake_case)]
pub fn TrackPopupMenu(h_menu: HMENU, u_flags: u32, x: i32, y: i32, n_reserved: i32, h_wnd: HWND, prc_rect: u64) -> (r: i32)
    ensures
        r == 0,
{
    0
}

} // verus!
