//! Values the system-call layer hands out: the message-box style and the
//! dialog answer it uses by default.

use vstd::prelude::*;
use crate::win32k::user_objects::{MB_OK, IDOK};

verus! {

/// The plain message-box style (an OK button only).
pub fn get_mb_ok() -> (r: u32)
    ensures
        r == MB_OK,
{
    MB_OK
}

/// The answer of a dialog closed with OK.
pub fn get_idok() -> (r: u32)
    ensures
        r == IDOK,
{
    IDOK
}

} // verus!
