//! The local security authority: the system token and the session-0
//! token it has loaded.

use vstd::prelude::*;

verus! {

/// The system process token.
pub const SYSTEM_TOKEN: u64 = 0x0000_BEEF_0000_0001;

/// The session-0 token.
pub const SESSION0_TOKEN: u64 = 0x0000_BEEF_0000_0002;

/// The authority's tokens; 0 for one not loaded.
#[derive(Clone, Copy)]
pub struct LsassState {
    pub system_token: u64,
    pub session0_token: u64,
}

impl LsassState {
    /// No token loaded.
    pub fn new() -> (r: Self)
        ensures
            r.system_token == 0 && r.session0_token == 0,
    {
        LsassState { system_token: 0, session0_token: 0 }
    }
}

/// Load the tokens.
pub fn init(state: &mut LsassState)
    ensures
        final(state).system_token == SYSTEM_TOKEN,
        final(state).session0_token == SESSION0_TOKEN,
{
    state.system_token = SYSTEM_TOKEN;
    state.session0_token = SESSION0_TOKEN;
}

/// Both tokens are loaded and distinct.
pub open spec fn tokens_ok(s: LsassState) -> bool {
    s.system_token != 0 && s.session0_token != 0 && s.system_token != s.session0_token
}

/// The authority's start-up check: both tokens loaded and distinct.
pub fn smoke_test(state: &LsassState) -> (r: bool)
    ensures
        r == tokens_ok(*state),
{
    state.system_token != 0 && state.session0_token != 0 && state.system_token != state.session0_token
}

/// Once the tokens are loaded, the authority passes its check.
pub proof fn lemma_loaded_tokens_ok(s: LsassState)
    requires
        s.system_token == SYSTEM_TOKEN && s.session0_token == SESSION0_TOKEN,
    ensures
        tokens_ok(s),
{
}

} // verus!
