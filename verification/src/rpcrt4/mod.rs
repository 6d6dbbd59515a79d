//! rpcrt4: the remote procedure call runtime.
//!
//! String bindings are composed and parsed, bindings live in a registry
//! that hands out handles, servers register protocol sequences and
//! interfaces, clients keep a table of connections, and UUIDs are made,
//! printed, parsed and compared. Each table is a value that its caller
//! owns and hands in.

pub mod types;
pub mod wstr;
pub mod uuid;
pub mod binding;
pub mod client;
pub mod server;
pub mod security;

use vstd::prelude::*;

verus! {

/// Start the RPC runtime. There is nothing to set up: every table starts
/// empty when its owner makes it.
pub fn init() {
}

} // verus!
