//! The logon manager keeps no state here; its check passes.

use vstd::prelude::*;

verus! {

/// The start-up check: it passes.
pub fn smoke_test() -> (r: bool)
    ensures
        r,
{
    true
}

} // verus!
