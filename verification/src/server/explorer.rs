//! The shell: whether it started, and its root and taskbar windows.

use vstd::prelude::*;

verus! {

/// The root window the shell makes.
pub const SHELL_ROOT_WINDOW: u64 = 0x0000_FACE_0000_0001;

/// The taskbar window the shell makes.
pub const SHELL_TASKBAR: u64 = 0x0000_FACE_0000_0002;

/// The shell's state.
#[derive(Clone, Copy)]
pub struct ExplorerState {
    pub shell_started: bool,
    pub root_window: u64,
    pub taskbar: u64,
}

impl ExplorerState {
    /// A shell not yet started.
    pub fn new() -> (r: Self)
        ensures
            !r.shell_started && r.root_window == 0 && r.taskbar == 0,
    {
        ExplorerState { shell_started: false, root_window: 0, taskbar: 0 }
    }
}

/// Start the shell: it is started, with its root and taskbar windows.
pub fn init(state: &mut ExplorerState)
    ensures
        final(state).shell_started,
        final(state).root_window == SHELL_ROOT_WINDOW,
        final(state).taskbar == SHELL_TASKBAR,
{
    state.shell_started = true;
    state.root_window = SHELL_ROOT_WINDOW;
    state.taskbar = SHELL_TASKBAR;
}

/// The shell is started with two distinct windows.
pub open spec fn shell_ok(s: ExplorerState) -> bool {
    s.shell_started && s.root_window != 0 && s.taskbar != 0 && s.root_window != s.taskbar
}

/// The shell's start-up check: started, with two distinct windows.
pub fn smoke_test(state: &ExplorerState) -> (r: bool)
    ensures
        r == shell_ok(*state),
{
    state.shell_started && state.root_window != 0 && state.taskbar != 0 && state.root_window != state.taskbar
}

/// A started shell passes its check.
pub proof fn lemma_started_shell_ok(s: ExplorerState)
    requires
        s.shell_started && s.root_window == SHELL_ROOT_WINDOW && s.taskbar == SHELL_TASKBAR,
    ensures
        shell_ok(s),
{
}

} // verus!
