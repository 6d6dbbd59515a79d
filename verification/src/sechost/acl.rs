//! Access control lists: building trustees and access entries, and the
//! entry points that read or make lists (no list is ever built: each
//! answers with its checks and empty results).

#![allow(non_snake_case)]

use vstd::prelude::*;
use crate::sechost::types::{DWORD, PSID, ACL, TRUSTEE_W, EXPLICIT_ACCESS_W, ERROR_SUCCESS, ERROR_INVALID_PARAMETER,
    TRUSTEE_IS_NAME, TRUSTEE_IS_SID, TRUSTEE_IS_UNKNOWN, NO_MULTIPLE_TRUSTEE};

verus! {

/// Make a list from entries and an old list: `ERROR_INVALID_PARAMETER`
/// without a place for the new list, or with entries counted but not
/// given; else `ERROR_SUCCESS`. The new list, where there is a place for
/// it, is null.
pub fn SetEntriesInAclW(cCountOfExplicitEntries: u32, pListOfExplicitEntries: Option<&[EXPLICIT_ACCESS_W]>,
    OldAcl: Option<&ACL>, NewAcl: Option<&mut u64>) -> (r: DWORD)
    ensures
        r == (match NewAcl {
            None => ERROR_INVALID_PARAMETER,
            Some(_) => if cCountOfExplicitEntries == 0 && OldAcl is None {
                ERROR_SUCCESS
            } else if cCountOfExplicitEntries > 0 && pListOfExplicitEntries is None {
                ERROR_INVALID_PARAMETER
            } else {
                ERROR_SUCCESS
            },
        }),
        NewAcl matches Some(p) ==> *final(p) == 0,
{
    match NewAcl {
        None => ERROR_INVALID_PARAMETER,
        Some(p) => {
            *p = 0;
            if cCountOfExplicitEntries == 0 && OldAcl.is_none() {
                return ERROR_SUCCESS;
            }
            if cCountOfExplicitEntries > 0 && pListOfExplicitEntries.is_none() {
                return ERROR_INVALID_PARAMETER;
            }
            ERROR_SUCCESS
        },
    }
}

/// The entries of a list: none, so the count and the list are zeroed
/// (`ERROR_SUCCESS`); `ERROR_INVALID_PARAMETER`, with nothing written,
/// without a place for either.
pub fn GetExplicitEntriesFromAclW(pacl: Option<&ACL>, pcCountOfExplicitEntries: Option<&mut u32>,
    pListOfExplicitEntries: Option<&mut u64>) -> (r: DWORD)
    ensures
        r == (if pcCountOfExplicitEntries is None || pListOfExplicitEntries is None { ERROR_INVALID_PARAMETER } else { ERROR_SUCCESS }),
        pcCountOfExplicitEntries matches Some(c) ==> *final(c) == (if pListOfExplicitEntries is None { *c } else { 0u32 }),
        pListOfExplicitEntries matches Some(l) ==> *final(l) == (if pcCountOfExplicitEntries is None { *l } else { 0u64 }),
{
    match (pcCountOfExplicitEntries, pListOfExplicitEntries) {
        (Some(c), Some(l)) => {
            *c = 0;
            *l = 0;
            ERROR_SUCCESS
        },
        _ => ERROR_INVALID_PARAMETER,
    }
}

/// The rights a list gives a trustee: all (`0xFFFFFFFF`) without a list,
/// else none (`ERROR_SUCCESS`); `ERROR_INVALID_PARAMETER`, with nothing
/// written, without a trustee or a place for the rights.
pub fn GetEffectiveRightsFromAclW(pacl: Option<&ACL>, pTrustee: Option<&TRUSTEE_W>, pAccessRights: Option<&mut DWORD>) -> (r: DWORD)
    ensures
        r == (if pTrustee is None || pAccessRights is None { ERROR_INVALID_PARAMETER } else { ERROR_SUCCESS }),
        pAccessRights matches Some(p) ==> *final(p) == (if pTrustee is None { *p } else if pacl is None { 0xFFFF_FFFFu32 } else { 0u32 }),
{
    if pTrustee.is_none() {
        return ERROR_INVALID_PARAMETER;
    }
    match pAccessRights {
        None => ERROR_INVALID_PARAMETER,
        Some(p) => {
            *p = if pacl.is_none() { 0xFFFF_FFFF } else { 0 };
            ERROR_SUCCESS
        },
    }
}

/// The audited rights a list gives a trustee: none, both written as 0
/// (`ERROR_SUCCESS`); `ERROR_INVALID_PARAMETER`, with nothing written,
/// without a trustee or a place for either.
pub fn GetAuditedPermissionsFromAclW(pacl: Option<&ACL>, pTrustee: Option<&TRUSTEE_W>,
    pSuccessfulAuditedRights: Option<&mut DWORD>, pFailedAuditRights: Option<&mut DWORD>) -> (r: DWORD)
    ensures
        r == (if pTrustee is None || pSuccessfulAuditedRights is None || pFailedAuditRights is None {
            ERROR_INVALID_PARAMETER
        } else {
            ERROR_SUCCESS
        }),
        r == ERROR_SUCCESS ==> (pSuccessfulAuditedRights matches Some(s) && *final(s) == 0)
            && (pFailedAuditRights matches Some(f) && *final(f) == 0),
        r != ERROR_SUCCESS ==> (pSuccessfulAuditedRights matches Some(s) ==> *final(s) == *s)
            && (pFailedAuditRights matches Some(f) ==> *final(f) == *f),
{
    if pTrustee.is_none() {
        return ERROR_INVALID_PARAMETER;
    }
    match (pSuccessfulAuditedRights, pFailedAuditRights) {
        (Some(s), Some(f)) => {
            *s = 0;
            *f = 0;
            ERROR_SUCCESS
        },
        _ => ERROR_INVALID_PARAMETER,
    }
}

/// A trustee named by `name` (a pointer value), of unknown type, alone.
pub open spec fn named_trustee(t: TRUSTEE_W, name: u64, form: u32) -> bool {
    t.pMultipleTrustee == 0 && t.MultipleTrusteeOperation == NO_MULTIPLE_TRUSTEE && t.TrusteeForm == form
        && t.TrusteeType == TRUSTEE_IS_UNKNOWN && t.ptstrName == name
}

/// Fill an access entry for a trustee named `pTrusteeName`, with these
/// rights, mode and inheritance; nothing without an entry.
pub fn BuildExplicitAccessWithNameW(pExplicitAccess: Option<&mut EXPLICIT_ACCESS_W>, pTrusteeName: u64,
    AccessPermissions: DWORD, AccessMode: DWORD, Inheritance: DWORD)
    ensures
        pExplicitAccess matches Some(ea) ==> final(ea).grfAccessPermissions == AccessPermissions
            && final(ea).grfAccessMode == AccessMode && final(ea).grfInheritance == Inheritance
            && named_trustee(final(ea).Trustee, pTrusteeName, TRUSTEE_IS_NAME),
{
    if let Some(ea) = pExplicitAccess {
        ea.grfAccessPermissions = AccessPermissions;
        ea.grfAccessMode = AccessMode;
        ea.grfInheritance = Inheritance;
        ea.Trustee = TRUSTEE_W {
            pMultipleTrustee: 0,
            MultipleTrusteeOperation: NO_MULTIPLE_TRUSTEE,
            TrusteeForm: TRUSTEE_IS_NAME,
            TrusteeType: TRUSTEE_IS_UNKNOWN,
            ptstrName: pTrusteeName,
        };
    }
}

/// Make a trustee of a name; nothing without a trustee.
pub fn BuildTrusteeWithNameW(pTrustee: Option<&mut TRUSTEE_W>, pName: u64)
    ensures
        pTrustee matches Some(t) ==> named_trustee(*final(t), pName, TRUSTEE_IS_NAME),
{
    if let Some(t) = pTrustee {
        *t = TRUSTEE_W {
            pMultipleTrustee: 0,
            MultipleTrusteeOperation: NO_MULTIPLE_TRUSTEE,
            TrusteeForm: TRUSTEE_IS_NAME,
            TrusteeType: TRUSTEE_IS_UNKNOWN,
            ptstrName: pName,
        };
    }
}

/// Make a trustee of a SID, kept where the name goes; nothing without a
/// trustee.
pub fn BuildTrusteeWithSidW(pTrustee: Option<&mut TRUSTEE_W>, pSid: PSID)
    ensures
        pTrustee matches Some(t) ==> named_trustee(*final(t), pSid, TRUSTEE_IS_SID),
{
    if let Some(t) = pTrustee {
        *t = TRUSTEE_W {
            pMultipleTrustee: 0,
            MultipleTrusteeOperation: NO_MULTIPLE_TRUSTEE,
            TrusteeForm: TRUSTEE_IS_SID,
            TrusteeType: TRUSTEE_IS_UNKNOWN,
            ptstrName: pSid,
        };
    }
}

/// Start the access-list entry points: nothing to set up.
pub fn init() {
}

} // verus!
