//! The system server processes: the shell and the security authority
//! keep a little state; the others have none. Each keeps its state in a
//! value that its owner makes and hands in.

pub mod csrss;
pub mod wininit;
pub mod winlogon;
pub mod services;
pub mod lsass;
pub mod explorer;
pub mod cmd;

use vstd::prelude::*;
use crate::server::explorer::ExplorerState;
use crate::server::lsass::LsassState;

verus! {

/// Start the servers: each server's state is made and started by its
/// owner, so there is nothing to do here.
pub fn init() {
}

/// Every server's start-up check passes: the conjunction of their checks.
pub fn smoke_test(explorer: &ExplorerState, lsass: &LsassState) -> (r: bool)
    ensures
        r == (explorer::shell_ok(*explorer) && lsass::tokens_ok(*lsass)),
{
    let mut ok = true;
    let c1 = csrss::smoke_test();
    ok = ok && c1;
    let c2 = wininit::smoke_test();
    ok = ok && c2;
    let c3 = winlogon::smoke_test();
    ok = ok && c3;
    let c4 = services::smoke_test();
    ok = ok && c4;
    let c5 = lsass::smoke_test(lsass);
    ok = ok && c5;
    let c6 = explorer::smoke_test(explorer);
    ok = ok && c6;
    let c7 = cmd::smoke_test();
    ok = ok && c7;
    ok
}

/// After the shell and the security authority have been started, every
/// server's start-up check passes.
pub proof fn lemma_servers_ok_after_init(explorer: ExplorerState, lsass: LsassState)
    requires
        explorer.shell_started && explorer.root_window == explorer::SHELL_ROOT_WINDOW
            && explorer.taskbar == explorer::SHELL_TASKBAR,
        lsass.system_token == lsass::SYSTEM_TOKEN && lsass.session0_token == lsass::SESSION0_TOKEN,
    ensures
        explorer::shell_ok(explorer) && lsass::tokens_ok(lsass),
{
    explorer::lemma_started_shell_ok(explorer);
    lsass::lemma_loaded_tokens_ok(lsass);
}

} // verus!
