//! user32: the user-mode window, message, menu and dialog interface.
//!
//! Window handles come from a table of placeholder windows; messages go
//! through per-thread queues; menus and dialogs live in tables of their
//! own. Each table is a value that its caller owns and hands in.

pub mod types;
pub mod gdi_link;
pub mod class;
pub mod input;
pub mod window;
pub mod message;
pub mod menu;
pub mod dialog;
pub mod smoke;

use vstd::prelude::*;

verus! {

/// The first placeholder window handle; the next ones follow it.
pub const WINDOW_HANDLE_BASE: u64 = 0x0000_FFFF_0000_0000;

/// The placeholder windows handed out so far, in order.
pub struct WindowTable {
    pub handles: Vec<u64>,
}

impl WindowTable {
    /// An empty table.
    pub fn new() -> (r: Self)
        ensures
            r.handles@.len() == 0,
    {
        WindowTable { handles: Vec::new() }
    }

    /// Slot `i` holds the base plus `i`, or 0 once that window is
    /// destroyed.
    pub open spec fn wf(&self) -> bool {
        &&& self.handles@.len() < 0x1_0000_0000
        &&& forall|i: int| 0 <= i < self.handles@.len() ==>
            #[trigger] self.handles@[i] == WINDOW_HANDLE_BASE + i || self.handles@[i] == 0
    }
}

/// Start user32: the window table is made by its owner, so there is
/// nothing to set up.
pub fn init() {
}

/// Hand out a new placeholder window: the base handle plus the number of
/// windows handed out before, recorded in the table.
pub fn alloc_window_handle(table: &mut WindowTable) -> (r: u64)
    requires
        old(table).wf(),
        old(table).handles@.len() + 1 < 0x1_0000_0000,
    ensures
        final(table).wf(),
        r == WINDOW_HANDLE_BASE + old(table).handles@.len(),
        final(table).handles@ == old(table).handles@.push(r),
{
    let h = WINDOW_HANDLE_BASE + table.handles.len() as u64;
    table.handles.push(h);
    h
}

/// Whether a window handle was handed out and not destroyed since.
pub fn has_window_handle(table: &WindowTable, h: u64) -> (r: bool)
    ensures
        r == (h != 0 && table.handles@.contains(h)),
{
    if h == 0 {
        return false;
    }
    let mut i: usize = 0;
    while i < table.handles.len()
        invariant
            h != 0,
            i <= table.handles@.len(),
            forall|j: int| 0 <= j < i ==> #[trigger] table.handles@[j] != h,
        decreases table.handles@.len() - i,
    {
        if table.handles[i] == h {
            assert(table.handles@.contains(h)) by {
                assert(table.handles@[i as int] == h);
            }
            return true;
        }
        i = i + 1;
    }
    false
}

/// Every window handed out is new: two handles handed out one after the
/// other differ, and both are in the table.
pub proof fn lemma_window_handles_unique(t0: WindowTable, t1: WindowTable, t2: WindowTable, a: u64, b: u64)
    requires
        t0.wf(),
        a == WINDOW_HANDLE_BASE + t0.handles@.len(),
        t1.handles@ == t0.handles@.push(a),
        b == WINDOW_HANDLE_BASE + t1.handles@.len(),
        t2.handles@ == t1.handles@.push(b),
    ensures
        a != b,
        t2.handles@.contains(a),
        t2.handles@.contains(b),
{
    assert(t2.handles@[t0.handles@.len() as int] == a);
    assert(t2.handles@[t1.handles@.len() as int] == b);
}

} // verus!
