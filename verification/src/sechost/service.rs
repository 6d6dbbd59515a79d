//! Service configuration and control: the arguments are checked and the
//! fixed answers of a running service written; nothing is stored.

#![allow(non_snake_case)]

use vstd::prelude::*;
use crate::sechost::types::{DWORD, BOOL, HANDLE, TRUE, FALSE, LastError, SetLastError, SERVICE_STATUS_PROCESS,
    ERROR_INVALID_HANDLE, ERROR_INVALID_PARAMETER, ERROR_INSUFFICIENT_BUFFER, ERROR_INVALID_SERVICE_CONTROL,
    SERVICE_CONFIG_DESCRIPTION, SERVICE_CONFIG_DELAYED_AUTO_START_INFO, SERVICE_CONFIG_PREFERRED_NODE,
    SERVICE_CONTROL_STOP, SERVICE_CONTROL_NETBINDDISABLE, SERVICE_CONTROL_PAUSE_CONTINUE, SERVICE_RUNNING,
    SC_ENUM_PROCESS_INFO, SERVICE_DESCRIPTIONW_SIZE, SERVICE_DELAYED_AUTO_START_INFO_SIZE, SERVICE_STATUS_PROCESS_SIZE};

verus! {

/// A service handle; 0 is null.
pub type SC_HANDLE = HANDLE;

/// A configuration level the service entry points know.
pub open spec fn known_config_level(level: DWORD) -> bool {
    SERVICE_CONFIG_DESCRIPTION <= level <= SERVICE_CONFIG_PREFERRED_NODE
}

/// Change a service's configuration: `TRUE` for a service, some
/// information and a known level (nothing is kept). Else `FALSE`, with
/// the last error `ERROR_INVALID_HANDLE` for a null service, else
/// `ERROR_INVALID_PARAMETER`.
pub fn ChangeServiceConfig2W(last: &mut LastError, hService: SC_HANDLE, dwInfoLevel: DWORD, lpInfo: u64) -> (r: BOOL)
    ensures
        r == (if hService == 0 || lpInfo == 0 || !known_config_level(dwInfoLevel) { FALSE } else { TRUE }),
        hService == 0 ==> final(last).code == ERROR_INVALID_HANDLE,
        hService != 0 && r == FALSE ==> final(last).code == ERROR_INVALID_PARAMETER,
        r == TRUE ==> *final(last) == *old(last),
{
    if hService == 0 {
        SetLastError(last, ERROR_INVALID_HANDLE);
        return FALSE;
    }
    if lpInfo == 0 {
        SetLastError(last, ERROR_INVALID_PARAMETER);
        return FALSE;
    }
    if dwInfoLevel >= SERVICE_CONFIG_DESCRIPTION && dwInfoLevel <= SERVICE_CONFIG_PREFERRED_NODE {
        TRUE
    } else {
        SetLastError(last, ERROR_INVALID_PARAMETER);
        FALSE
    }
}

/// The bytes a configuration level needs: a description pointer, a
/// delayed-start flag, or 16 for the other known levels.
pub open spec fn config_size(level: DWORD) -> DWORD {
    if level == SERVICE_CONFIG_DESCRIPTION {
        SERVICE_DESCRIPTIONW_SIZE
    } else if level == SERVICE_CONFIG_DELAYED_AUTO_START_INFO {
        SERVICE_DELAYED_AUTO_START_INFO_SIZE
    } else {
        16
    }
}

/// How many leading bytes a configuration answer clears: the description
/// pointer or the delayed-start flag; nothing for the other levels.
pub open spec fn config_cleared(level: DWORD) -> int {
    if level == SERVICE_CONFIG_DESCRIPTION {
        SERVICE_DESCRIPTIONW_SIZE as int
    } else if level == SERVICE_CONFIG_DELAYED_AUTO_START_INFO {
        SERVICE_DELAYED_AUTO_START_INFO_SIZE as int
    } else {
        0
    }
}

/// A service's configuration at a level: no description and no delayed
/// start (the leading bytes cleared), `TRUE`, when the buffer holds what
/// the level needs. The size needed is written first; a buffer too small
/// or missing gives `ERROR_INSUFFICIENT_BUFFER`. A null service gives
/// `ERROR_INVALID_HANDLE`; no place for the size, or an unknown level,
/// `ERROR_INVALID_PARAMETER`. `FALSE` in each of these cases.
pub fn QueryServiceConfig2W(last: &mut LastError, hService: SC_HANDLE, dwInfoLevel: DWORD, lpBuffer: Option<&mut [u8]>,
    cbBufSize: DWORD, pcbBytesNeeded: Option<&mut DWORD>) -> (r: BOOL)
    requires
        lpBuffer matches Some(b) ==> b@.len() >= cbBufSize,
    ensures
        hService == 0 ==> r == FALSE && final(last).code == ERROR_INVALID_HANDLE,
        hService != 0 && (pcbBytesNeeded is None || !known_config_level(dwInfoLevel)) ==> r == FALSE
            && final(last).code == ERROR_INVALID_PARAMETER,
        hService != 0 && pcbBytesNeeded is Some && known_config_level(dwInfoLevel) ==> {
            &&& *final(pcbBytesNeeded.unwrap()) == config_size(dwInfoLevel)
            &&& r == (if cbBufSize < config_size(dwInfoLevel) || lpBuffer is None { FALSE } else { TRUE })
            &&& r == FALSE ==> final(last).code == ERROR_INSUFFICIENT_BUFFER
            &&& r == TRUE ==> *final(last) == *old(last)
        },
        !(hService != 0 && pcbBytesNeeded is Some && known_config_level(dwInfoLevel)) ==>
            (pcbBytesNeeded matches Some(n) ==> *final(n) == *n),
        lpBuffer matches Some(b) ==> final(b)@.len() == b@.len() && forall|i: int| 0 <= i < b@.len() ==> #[trigger] final(b)@[i] ==
            if r == TRUE && i < config_cleared(dwInfoLevel) { 0u8 } else { b@[i] },
{
    if hService == 0 {
        SetLastError(last, ERROR_INVALID_HANDLE);
        return FALSE;
    }
    let needed = match pcbBytesNeeded {
        None => {
            SetLastError(last, ERROR_INVALID_PARAMETER);
            return FALSE;
        },
        Some(n) => n,
    };
    if dwInfoLevel < SERVICE_CONFIG_DESCRIPTION || dwInfoLevel > SERVICE_CONFIG_PREFERRED_NODE {
        SetLastError(last, ERROR_INVALID_PARAMETER);
        return FALSE;
    }
    let size: DWORD = if dwInfoLevel == SERVICE_CONFIG_DESCRIPTION {
        SERVICE_DESCRIPTIONW_SIZE
    } else if dwInfoLevel == SERVICE_CONFIG_DELAYED_AUTO_START_INFO {
        SERVICE_DELAYED_AUTO_START_INFO_SIZE
    } else {
        16
    };
    *needed = size;
    match lpBuffer {
        None => {
            SetLastError(last, ERROR_INSUFFICIENT_BUFFER);
            FALSE
        },
        Some(b) => {
            if cbBufSize < size {
                SetLastError(last, ERROR_INSUFFICIENT_BUFFER);
                return FALSE;
            }
            let clear: usize = if dwInfoLevel == SERVICE_CONFIG_DESCRIPTION {
                SERVICE_DESCRIPTIONW_SIZE as usize
            } else if dwInfoLevel == SERVICE_CONFIG_DELAYED_AUTO_START_INFO {
                SERVICE_DELAYED_AUTO_START_INFO_SIZE as usize
            } else {
                0
            };
            let ghost b0 = b@;
            let mut i: usize = 0;
            while i < clear
                invariant
                    i <= clear,
                    clear <= b@.len(),
                    b@.len() == b0.len(),
                    forall|k: int| 0 <= k < b@.len() ==> #[trigger] b@[k] == if k < i { 0u8 } else { b0[k] },
                decreases clear - i,
            {
                b[i] = 0;
                i = i + 1;
            }
            TRUE
        },
    }
}

/// The status a service reports: a running process of its own that
/// takes stop and pause-continue, with no exit codes, checkpoints or
/// process.
pub open spec fn running_status(s: SERVICE_STATUS_PROCESS) -> bool {
    &&& s.dwServiceType == 0x10 && s.dwCurrentState == SERVICE_RUNNING
    &&& s.dwControlsAccepted == (SERVICE_CONTROL_STOP | SERVICE_CONTROL_PAUSE_CONTINUE)
    &&& s.dwWin32ExitCode == 0 && s.dwServiceSpecificExitCode == 0 && s.dwCheckPoint == 0 && s.dwWaitHint == 0
    &&& s.dwProcessId == 0 && s.dwServiceFlags == 0
}

/// A service's status: running (`TRUE`), when the buffer has room for it.
/// The size needed is written first; a buffer too small or missing gives
/// `ERROR_INSUFFICIENT_BUFFER`. A null service gives
/// `ERROR_INVALID_HANDLE`; no place for the size, or a level other than
/// process information, `ERROR_INVALID_PARAMETER`. `FALSE` in each case.
pub fn QueryServiceStatusEx(last: &mut LastError, hService: SC_HANDLE, InfoLevel: DWORD,
    lpBuffer: Option<&mut SERVICE_STATUS_PROCESS>, cbBufSize: DWORD, pcbBytesNeeded: Option<&mut DWORD>) -> (r: BOOL)
    ensures
        hService == 0 ==> r == FALSE && final(last).code == ERROR_INVALID_HANDLE,
        hService != 0 && (pcbBytesNeeded is None || InfoLevel != SC_ENUM_PROCESS_INFO) ==> r == FALSE
            && final(last).code == ERROR_INVALID_PARAMETER,
        hService != 0 && pcbBytesNeeded is Some && InfoLevel == SC_ENUM_PROCESS_INFO ==> {
            &&& *final(pcbBytesNeeded.unwrap()) == SERVICE_STATUS_PROCESS_SIZE
            &&& r == (if cbBufSize < SERVICE_STATUS_PROCESS_SIZE || lpBuffer is None { FALSE } else { TRUE })
            &&& r == FALSE ==> final(last).code == ERROR_INSUFFICIENT_BUFFER
            &&& r == TRUE ==> *final(last) == *old(last)
        },
        !(hService != 0 && pcbBytesNeeded is Some && InfoLevel == SC_ENUM_PROCESS_INFO) ==>
            (pcbBytesNeeded matches Some(n) ==> *final(n) == *n),
        lpBuffer matches Some(b) ==> (if r == TRUE { running_status(*final(b)) } else { *final(b) == *b }),
{
    if hService == 0 {
        SetLastError(last, ERROR_INVALID_HANDLE);
        return FALSE;
    }
    let needed = match pcbBytesNeeded {
        None => {
            SetLastError(last, ERROR_INVALID_PARAMETER);
            return FALSE;
        },
        Some(n) => n,
    };
    if InfoLevel != SC_ENUM_PROCESS_INFO {
        SetLastError(last, ERROR_INVALID_PARAMETER);
        return FALSE;
    }
    *needed = SERVICE_STATUS_PROCESS_SIZE;
    match lpBuffer {
        None => {
            SetLastError(last, ERROR_INSUFFICIENT_BUFFER);
            FALSE
        },
        Some(status) => {
            if cbBufSize < SERVICE_STATUS_PROCESS_SIZE {
                SetLastError(last, ERROR_INSUFFICIENT_BUFFER);
                return FALSE;
            }
            *status = SERVICE_STATUS_PROCESS {
                dwServiceType: 0x10,
                dwCurrentState: SERVICE_RUNNING,
                dwControlsAccepted: SERVICE_CONTROL_STOP | SERVICE_CONTROL_PAUSE_CONTINUE,
                dwWin32ExitCode: 0,
                dwServiceSpecificExitCode: 0,
                dwCheckPoint: 0,
                dwWaitHint: 0,
                dwProcessId: 0,
                dwServiceFlags: 0,
            };
            TRUE
        },
    }
}

/// A control a service takes: stop through disable-binding, or a
/// user-defined one (0x80 to 0xFF).
pub open spec fn known_control(c: DWORD) -> bool {
    (SERVICE_CONTROL_STOP <= c <= SERVICE_CONTROL_NETBINDDISABLE) || (0x80 <= c <= 0xFF)
}

/// Send a control to a service: `TRUE` for a known control; `FALSE` with
/// the last error `ERROR_INVALID_HANDLE` for a null service, or
/// `ERROR_INVALID_SERVICE_CONTROL` for an unknown control.
pub fn ControlServiceEx(last: &mut LastError, hService: SC_HANDLE, dwControl: DWORD, dwInfoLevel: DWORD, pControlParams: u64) -> (r: BOOL)
    ensures
        r == (if hService == 0 || !known_control(dwControl) { FALSE } else { TRUE }),
        hService == 0 ==> final(last).code == ERROR_INVALID_HANDLE,
        hService != 0 && !known_control(dwControl) ==> final(last).code == ERROR_INVALID_SERVICE_CONTROL,
        r == TRUE ==> *final(last) == *old(last),
{
    if hService == 0 {
        SetLastError(last, ERROR_INVALID_HANDLE);
        return FALSE;
    }
    if (dwControl >= SERVICE_CONTROL_STOP && dwControl <= SERVICE_CONTROL_NETBINDDISABLE) || (dwControl >= 0x80 && dwControl <= 0xFF) {
        TRUE
    } else {
        SetLastError(last, ERROR_INVALID_SERVICE_CONTROL);
        FALSE
    }
}

/// Start the service entry points: nothing to set up.
pub fn init() {
}

} // verus!
