//! The service control manager is started by its owner; its check passes.

use vstd::prelude::*;

verus! {

/// The start-up check: it passes.
pub fn smoke_test() -> (r: bool)
    ensures
        r,
{
    true
}

} // verus!
