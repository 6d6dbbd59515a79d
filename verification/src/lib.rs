//! A verified model of the NT 6.1 window-manager and graphics kernel
//! (win32k), together with the small user32, rpcrt4, sechost and
//! service-host pieces that sit beside it.
//!
//! Every subsystem keeps its state in an explicit value (a handle table,
//! a window manager, a clipboard) instead of a global, so that each
//! operation states in its contract how the state before relates to the
//! state after.

pub mod win32k;
pub mod rpcrt4;
pub mod user32;
pub mod sechost;
pub mod server;
pub mod smoke;
