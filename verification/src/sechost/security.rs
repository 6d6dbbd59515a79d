//! Security descriptors of named objects and handles: the arguments are
//! checked and empty results written; nothing is stored.

#![allow(non_snake_case)]

use vstd::prelude::*;
use crate::sechost::types::{DWORD, HANDLE, PSID, SE_OBJECT_TYPE, SECURITY_INFORMATION, ACL, TRUSTEE_W, EXPLICIT_ACCESS_W,
    ERROR_SUCCESS, ERROR_INVALID_PARAMETER, ERROR_INVALID_HANDLE, INVALID_HANDLE_VALUE, SE_FILE_OBJECT,
    SE_REGISTRY_WOW64_32KEY, OWNER_SECURITY_INFORMATION, GROUP_SECURITY_INFORMATION};

verus! {

/// An object type the security entry points know: files through 32-bit
/// registry keys.
pub open spec fn known_object_type(t: SE_OBJECT_TYPE) -> bool {
    SE_FILE_OBJECT <= t <= SE_REGISTRY_WOW64_32KEY
}

/// What setting the security of a named object answers.
pub open spec fn set_named_status(name: bool, t: SE_OBJECT_TYPE, info: SECURITY_INFORMATION, owner: PSID, group: PSID) -> DWORD {
    if !name {
        ERROR_INVALID_PARAMETER
    } else if !known_object_type(t) {
        ERROR_INVALID_PARAMETER
    } else if info == 0 {
        ERROR_INVALID_PARAMETER
    } else if info & OWNER_SECURITY_INFORMATION != 0 && owner == 0 {
        ERROR_INVALID_PARAMETER
    } else if info & GROUP_SECURITY_INFORMATION != 0 && group == 0 {
        ERROR_INVALID_PARAMETER
    } else {
        ERROR_SUCCESS
    }
}

/// Set the security of a named object: `ERROR_SUCCESS` for a name, a
/// known object type, some information, and an owner and group where the
/// information names them; else `ERROR_INVALID_PARAMETER`.
pub fn SetNamedSecurityInfoW(pObjectName: Option<&[u16]>, ObjectType: SE_OBJECT_TYPE, SecurityInfo: SECURITY_INFORMATION,
    psidOwner: PSID, psidGroup: PSID, pDacl: Option<&ACL>, pSacl: Option<&ACL>) -> (r: DWORD)
    ensures
        r == set_named_status(pObjectName is Some, ObjectType, SecurityInfo, psidOwner, psidGroup),
{
    if pObjectName.is_none() {
        return ERROR_INVALID_PARAMETER;
    }
    if ObjectType < SE_FILE_OBJECT || ObjectType > SE_REGISTRY_WOW64_32KEY {
        return ERROR_INVALID_PARAMETER;
    }
    if SecurityInfo == 0 {
        return ERROR_INVALID_PARAMETER;
    }
    if (SecurityInfo & OWNER_SECURITY_INFORMATION) != 0 && psidOwner == 0 {
        return ERROR_INVALID_PARAMETER;
    }
    if (SecurityInfo & GROUP_SECURITY_INFORMATION) != 0 && psidGroup == 0 {
        return ERROR_INVALID_PARAMETER;
    }
    ERROR_SUCCESS
}

fn zero_opt(p: Option<&mut u64>)
    ensures
        p matches Some(x) ==> *final(x) == 0,
{
    if let Some(x) = p {
        *x = 0;
    }
}

/// The security of a named object: no owner, group or lists, and no
/// descriptor, each written as null where there is a place for it
/// (`ERROR_SUCCESS`); `ERROR_INVALID_PARAMETER`, with nothing written,
/// without a name, for an unknown object type, without information, or
/// without a place for the descriptor.
pub fn GetNamedSecurityInfoW(pObjectName: Option<&[u16]>, ObjectType: SE_OBJECT_TYPE, SecurityInfo: SECURITY_INFORMATION,
    ppsidOwner: Option<&mut u64>, ppsidGroup: Option<&mut u64>, ppDacl: Option<&mut u64>, ppSacl: Option<&mut u64>,
    ppSecurityDescriptor: Option<&mut u64>) -> (r: DWORD)
    ensures
        r == (if pObjectName is None || !known_object_type(ObjectType) || SecurityInfo == 0 || ppSecurityDescriptor is None {
            ERROR_INVALID_PARAMETER
        } else {
            ERROR_SUCCESS
        }),
        ppsidOwner matches Some(x) ==> *final(x) == (if r == ERROR_SUCCESS { 0u64 } else { *x }),
        ppsidGroup matches Some(x) ==> *final(x) == (if r == ERROR_SUCCESS { 0u64 } else { *x }),
        ppDacl matches Some(x) ==> *final(x) == (if r == ERROR_SUCCESS { 0u64 } else { *x }),
        ppSacl matches Some(x) ==> *final(x) == (if r == ERROR_SUCCESS { 0u64 } else { *x }),
        ppSecurityDescriptor matches Some(x) ==> *final(x) == (if r == ERROR_SUCCESS { 0u64 } else { *x }),
{
    if pObjectName.is_none() || ObjectType < SE_FILE_OBJECT || ObjectType > SE_REGISTRY_WOW64_32KEY || SecurityInfo == 0 {
        return ERROR_INVALID_PARAMETER;
    }
    match ppSecurityDescriptor {
        None => ERROR_INVALID_PARAMETER,
        Some(sd) => {
            zero_opt(ppsidOwner);
            zero_opt(ppsidGroup);
            zero_opt(ppDacl);
            zero_opt(ppSacl);
            *sd = 0;
            ERROR_SUCCESS
        },
    }
}

/// Whether a handle is usable: neither null nor the invalid handle.
pub open spec fn usable_handle(h: HANDLE) -> bool {
    h != 0 && h != INVALID_HANDLE_VALUE
}

/// Set the security of an object by handle: `ERROR_INVALID_HANDLE` for an
/// unusable handle, `ERROR_INVALID_PARAMETER` without information, else
/// `ERROR_SUCCESS`.
pub fn SetSecurityInfo(handle: HANDLE, ObjectType: SE_OBJECT_TYPE, SecurityInfo: SECURITY_INFORMATION, psidOwner: PSID,
    psidGroup: PSID, pDacl: Option<&ACL>, pSacl: Option<&ACL>) -> (r: DWORD)
    ensures
        r == (if !usable_handle(handle) {
            ERROR_INVALID_HANDLE
        } else if SecurityInfo == 0 {
            ERROR_INVALID_PARAMETER
        } else {
            ERROR_SUCCESS
        }),
{
    if handle == 0 || handle == INVALID_HANDLE_VALUE {
        return ERROR_INVALID_HANDLE;
    }
    if SecurityInfo == 0 {
        return ERROR_INVALID_PARAMETER;
    }
    ERROR_SUCCESS
}

/// The security of an object by handle: everything null, as for
/// `GetNamedSecurityInfoW` (`ERROR_SUCCESS`); `ERROR_INVALID_HANDLE` for
/// an unusable handle, `ERROR_INVALID_PARAMETER` without a place for the
/// descriptor, with nothing written.
pub fn GetSecurityInfo(handle: HANDLE, ObjectType: SE_OBJECT_TYPE, SecurityInfo: SECURITY_INFORMATION,
    ppsidOwner: Option<&mut u64>, ppsidGroup: Option<&mut u64>, ppDacl: Option<&mut u64>, ppSacl: Option<&mut u64>,
    ppSecurityDescriptor: Option<&mut u64>) -> (r: DWORD)
    ensures
        r == (if !usable_handle(handle) {
            ERROR_INVALID_HANDLE
        } else if ppSecurityDescriptor is None {
            ERROR_INVALID_PARAMETER
        } else {
            ERROR_SUCCESS
        }),
        ppsidOwner matches Some(x) ==> *final(x) == (if r == ERROR_SUCCESS { 0u64 } else { *x }),
        ppsidGroup matches Some(x) ==> *final(x) == (if r == ERROR_SUCCESS { 0u64 } else { *x }),
        ppDacl matches Some(x) ==> *final(x) == (if r == ERROR_SUCCESS { 0u64 } else { *x }),
        ppSacl matches Some(x) ==> *final(x) == (if r == ERROR_SUCCESS { 0u64 } else { *x }),
        ppSecurityDescriptor matches Some(x) ==> *final(x) == (if r == ERROR_SUCCESS { 0u64 } else { *x }),
{
    if handle == 0 || handle == INVALID_HANDLE_VALUE {
        return ERROR_INVALID_HANDLE;
    }
    match ppSecurityDescriptor {
        None => ERROR_INVALID_PARAMETER,
        Some(sd) => {
            zero_opt(ppsidOwner);
            zero_opt(ppsidGroup);
            zero_opt(ppDacl);
            zero_opt(ppSacl);
            *sd = 0;
            ERROR_SUCCESS
        },
    }
}

/// Build a security descriptor: none is built, so its size and pointer
/// are written as 0 (`ERROR_SUCCESS`); `ERROR_INVALID_PARAMETER`, with
/// nothing written, without a place for either.
pub fn BuildSecurityDescriptorW(pOwner: Option<&TRUSTEE_W>, pGroup: Option<&TRUSTEE_W>, cCountOfAccessEntries: u32,
    pListOfAccessEntries: Option<&[EXPLICIT_ACCESS_W]>, cCountOfAuditEntries: u32, pListOfAuditEntries: Option<&[EXPLICIT_ACCESS_W]>,
    pOldSD: u64, pSizeNewSD: Option<&mut u32>, pNewSD: Option<&mut u64>) -> (r: DWORD)
    ensures
        r == (if pSizeNewSD is None || pNewSD is None { ERROR_INVALID_PARAMETER } else { ERROR_SUCCESS }),
        pSizeNewSD matches Some(s) ==> *final(s) == (if r == ERROR_SUCCESS { 0u32 } else { *s }),
        pNewSD matches Some(x) ==> *final(x) == (if r == ERROR_SUCCESS { 0u64 } else { *x }),
{
    match (pSizeNewSD, pNewSD) {
        (Some(s), Some(p)) => {
            *s = 0;
            *p = 0;
            ERROR_SUCCESS
        },
        _ => ERROR_INVALID_PARAMETER,
    }
}

/// Start the security entry points: nothing to set up.
pub fn init() {
}

} // verus!
