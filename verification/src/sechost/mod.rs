//! sechost: the security, service-control, event-log and token entry
//! points that Windows 7 moved out of advapi32.

pub mod types;
pub mod acl;
pub mod event;
pub mod security;
pub mod service;
pub mod token;

use vstd::prelude::*;

verus! {

/// Start sechost: there is nothing to set up.
pub fn init() {
}

} // verus!
