//! Access tokens: the arguments are checked; no token is a member of a
//! group, restricted, or holds a capability, and no information is
//! given.

#![allow(non_snake_case)]

use vstd::prelude::*;
use crate::sechost::types::{DWORD, BOOL, HANDLE, PSID, TRUE, FALSE, LastError, SetLastError, ERROR_INVALID_PARAMETER,
    ERROR_INVALID_HANDLE, ERROR_INSUFFICIENT_BUFFER, INVALID_HANDLE_VALUE};
use crate::sechost::security::usable_handle;

verus! {

/// Whether a token is a member of a group: never, written as `FALSE`
/// (`TRUE`); without a SID or a place for the answer the last error is
/// `ERROR_INVALID_PARAMETER` and the answer `FALSE`, with nothing
/// written.
pub fn CheckTokenMembership(last: &mut LastError, TokenHandle: HANDLE, SidToCheck: PSID, IsMember: Option<&mut BOOL>) -> (r: BOOL)
    ensures
        r == (if SidToCheck == 0 || IsMember is None { FALSE } else { TRUE }),
        r == FALSE ==> final(last).code == ERROR_INVALID_PARAMETER,
        r == TRUE ==> *final(last) == *old(last),
        IsMember matches Some(m) ==> *final(m) == (if SidToCheck == 0 { *m } else { FALSE }),
{
    if SidToCheck == 0 {
        SetLastError(last, ERROR_INVALID_PARAMETER);
        return FALSE;
    }
    match IsMember {
        None => {
            SetLastError(last, ERROR_INVALID_PARAMETER);
            FALSE
        },
        Some(m) => {
            *m = FALSE;
            TRUE
        },
    }
}

/// Whether a token is restricted: never (`FALSE`); an unusable handle
/// also sets the last error to `ERROR_INVALID_HANDLE`.
pub fn IsTokenRestricted(last: &mut LastError, TokenHandle: HANDLE) -> (r: BOOL)
    ensures
        r == FALSE,
        !usable_handle(TokenHandle) ==> final(last).code == ERROR_INVALID_HANDLE,
        usable_handle(TokenHandle) ==> *final(last) == *old(last),
{
    if TokenHandle == 0 || TokenHandle == INVALID_HANDLE_VALUE {
        SetLastError(last, ERROR_INVALID_HANDLE);
    }
    FALSE
}

/// Information about a token: none fits, so the length is written as 0
/// and the last error is `ERROR_INSUFFICIENT_BUFFER`; an unusable handle
/// gives `ERROR_INVALID_HANDLE`, and no place for the length
/// `ERROR_INVALID_PARAMETER`, with nothing written. Always `FALSE`.
pub fn GetTokenInformation(last: &mut LastError, TokenHandle: HANDLE, TokenInformationClass: DWORD, TokenInformation: u64,
    TokenInformationLength: DWORD, ReturnLength: Option<&mut DWORD>) -> (r: BOOL)
    ensures
        r == FALSE,
        final(last).code == (if !usable_handle(TokenHandle) {
            ERROR_INVALID_HANDLE
        } else if ReturnLength is None {
            ERROR_INVALID_PARAMETER
        } else {
            ERROR_INSUFFICIENT_BUFFER
        }),
        ReturnLength matches Some(l) ==> *final(l) == (if usable_handle(TokenHandle) { 0u32 } else { *l }),
{
    if TokenHandle == 0 || TokenHandle == INVALID_HANDLE_VALUE {
        SetLastError(last, ERROR_INVALID_HANDLE);
        return FALSE;
    }
    match ReturnLength {
        None => {
            SetLastError(last, ERROR_INVALID_PARAMETER);
            FALSE
        },
        Some(l) => {
            *l = 0;
            SetLastError(last, ERROR_INSUFFICIENT_BUFFER);
            FALSE
        },
    }
}

/// Whether a token holds a capability: never, written as `FALSE`
/// (`TRUE`); an unusable handle gives `ERROR_INVALID_HANDLE`, and no SID
/// or no place for the answer `ERROR_INVALID_PARAMETER`, as the last
/// error with `FALSE` and nothing written.
pub fn CheckTokenCapability(last: &mut LastError, TokenHandle: HANDLE, CapabilitySidToCheck: PSID,
    HasCapability: Option<&mut BOOL>) -> (r: BOOL)
    ensures
        r == (if !usable_handle(TokenHandle) || CapabilitySidToCheck == 0 || HasCapability is None { FALSE } else { TRUE }),
        !usable_handle(TokenHandle) ==> final(last).code == ERROR_INVALID_HANDLE,
        usable_handle(TokenHandle) && (CapabilitySidToCheck == 0 || HasCapability is None) ==> final(last).code == ERROR_INVALID_PARAMETER,
        r == TRUE ==> *final(last) == *old(last),
        HasCapability matches Some(h) ==> *final(h) == (if r == TRUE { FALSE } else { *h }),
{
    if TokenHandle == 0 || TokenHandle == INVALID_HANDLE_VALUE {
        SetLastError(last, ERROR_INVALID_HANDLE);
        return FALSE;
    }
    if CapabilitySidToCheck == 0 {
        SetLastError(last, ERROR_INVALID_PARAMETER);
        return FALSE;
    }
    match HasCapability {
        None => {
            SetLastError(last, ERROR_INVALID_PARAMETER);
            FALSE
        },
        Some(h) => {
            *h = FALSE;
            TRUE
        },
    }
}

/// Whether a SID is a well-known one: never (`FALSE`); a null SID also
/// sets the last error to `ERROR_INVALID_PARAMETER`.
pub fn IsWellKnownSid(last: &mut LastError, pSid: PSID, WellKnownSidType: DWORD) -> (r: BOOL)
    ensures
        r == FALSE,
        pSid == 0 ==> final(last).code == ERROR_INVALID_PARAMETER,
        pSid != 0 ==> *final(last) == *old(last),
{
    if pSid == 0 {
        SetLastError(last, ERROR_INVALID_PARAMETER);
    }
    FALSE
}

/// Make a well-known SID: none fits, so the size is written as 0 and the
/// last error is `ERROR_INSUFFICIENT_BUFFER`; without a place for the
/// size it is `ERROR_INVALID_PARAMETER`. Always `FALSE`.
pub fn CreateWellKnownSid(last: &mut LastError, WellKnownSidType: DWORD, DomainSid: PSID, pSid: PSID, cbSid: Option<&mut DWORD>) -> (r: BOOL)
    ensures
        r == FALSE,
        final(last).code == (if cbSid is None { ERROR_INVALID_PARAMETER } else { ERROR_INSUFFICIENT_BUFFER }),
        cbSid matches Some(c) ==> *final(c) == 0,
{
    match cbSid {
        None => {
            SetLastError(last, ERROR_INVALID_PARAMETER);
            FALSE
        },
        Some(c) => {
            *c = 0;
            SetLastError(last, ERROR_INSUFFICIENT_BUFFER);
            FALSE
        },
    }
}

/// Start the token entry points: nothing to set up.
pub fn init() {
}

} // verus!
