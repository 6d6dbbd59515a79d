//! The start-up check of the libraries: one numbered case per library,
//! the conjunction of their checks.

use vstd::prelude::*;
use crate::server::explorer::{ExplorerState, shell_ok};
use crate::server::lsass::{LsassState, tokens_ok};

verus! {

/// The numbered start-up cases run so far.
pub struct CaseCounter {
    pub count: u32,
}

impl CaseCounter {
    /// No case run yet.
    pub fn new() -> (r: Self)
        ensures
            r.count == 0,
    {
        CaseCounter { count: 0 }
    }
}

/// Run one numbered case: the counter moves on by one (wrapping), and the
/// case's outcome is the answer.
fn case(counter: &mut CaseCounter, ok: bool) -> (r: bool)
    ensures
        r == ok,
        final(counter).count == old(counter).count.wrapping_add(1),
{
    counter.count = counter.count.wrapping_add(1);
    ok
}

/// Run the start-up cases of user32 and of every server, numbered in
/// turn: whether they all pass.
pub fn smoke_test(counter: &mut CaseCounter, explorer: &ExplorerState, lsass: &LsassState) -> (r: bool)
    ensures
        r == (shell_ok(*explorer) && tokens_ok(*lsass)),
{
    let mut ok = true;
    let c1 = case(counter, crate::user32::smoke::smoke_test());
    ok = ok && c1;
    let c2 = case(counter, crate::server::csrss::smoke_test());
    ok = ok && c2;
    let c3 = case(counter, crate::server::wininit::smoke_test());
    ok = ok && c3;
    let c4 = case(counter, crate::server::winlogon::smoke_test());
    ok = ok && c4;
    let c5 = case(counter, crate::server::services::smoke_test());
    ok = ok && c5;
    let c6 = case(counter, crate::server::lsass::smoke_test(lsass));
    ok = ok && c6;
    let c7 = case(counter, crate::server::explorer::smoke_test(explorer));
    ok = ok && c7;
    let c8 = case(counter, crate::server::cmd::smoke_test());
    ok = ok && c8;
    ok
}

} // verus!
