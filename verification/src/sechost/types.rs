//! The types and constants the sechost entry points use, with the values
//! the Windows SDK gives them, and the thread's last-error value.

#![allow(non_camel_case_types, non_snake_case)]

use vstd::prelude::*;

verus! {

pub type DWORD = u32;
pub type BOOL = i32;
pub type WORD = u16;
pub type HANDLE = u64;
pub type PSID = u64;
pub type SE_OBJECT_TYPE = u32;
pub type SECURITY_INFORMATION = u32;
pub type EVENT_SOURCE_HANDLE = u64;

pub const TRUE: BOOL = 1;
pub const FALSE: BOOL = 0;

/// The handle value that stands for an invalid handle.
pub const INVALID_HANDLE_VALUE: HANDLE = 0xFFFF_FFFF_FFFF_FFFF;

pub const ERROR_SUCCESS: DWORD = 0;
pub const ERROR_INVALID_HANDLE: DWORD = 6;
pub const ERROR_NOT_ENOUGH_MEMORY: DWORD = 8;
pub const ERROR_INVALID_PARAMETER: DWORD = 87;
pub const ERROR_INSUFFICIENT_BUFFER: DWORD = 122;
pub const ERROR_INVALID_SERVICE_CONTROL: DWORD = 1052;

pub const SE_UNKNOWN_OBJECT_TYPE: SE_OBJECT_TYPE = 0;
pub const SE_FILE_OBJECT: SE_OBJECT_TYPE = 1;
pub const SE_SERVICE: SE_OBJECT_TYPE = 2;
pub const SE_PRINTER: SE_OBJECT_TYPE = 3;
pub const SE_REGISTRY_KEY: SE_OBJECT_TYPE = 4;
pub const SE_LMSHARE: SE_OBJECT_TYPE = 5;
pub const SE_KERNEL_OBJECT: SE_OBJECT_TYPE = 6;
pub const SE_WINDOW_OBJECT: SE_OBJECT_TYPE = 7;
pub const SE_DS_OBJECT: SE_OBJECT_TYPE = 8;
pub const SE_DS_OBJECT_ALL: SE_OBJECT_TYPE = 9;
pub const SE_PROVIDER_DEFINED_OBJECT: SE_OBJECT_TYPE = 10;
pub const SE_WMIGUID_OBJECT: SE_OBJECT_TYPE = 11;
pub const SE_REGISTRY_WOW64_32KEY: SE_OBJECT_TYPE = 12;

pub const OWNER_SECURITY_INFORMATION: SECURITY_INFORMATION = 0x1;
pub const GROUP_SECURITY_INFORMATION: SECURITY_INFORMATION = 0x2;
pub const DACL_SECURITY_INFORMATION: SECURITY_INFORMATION = 0x4;
pub const SACL_SECURITY_INFORMATION: SECURITY_INFORMATION = 0x8;

pub const TRUSTEE_IS_SID: u32 = 0;
pub const TRUSTEE_IS_NAME: u32 = 1;
pub const TRUSTEE_IS_UNKNOWN: u32 = 0;
pub const NO_MULTIPLE_TRUSTEE: u32 = 0;

pub const EVENTLOG_SUCCESS: WORD = 0x0000;
pub const EVENTLOG_ERROR_TYPE: WORD = 0x0001;
pub const EVENTLOG_WARNING_TYPE: WORD = 0x0002;
pub const EVENTLOG_INFORMATION_TYPE: WORD = 0x0004;
pub const EVENTLOG_AUDIT_SUCCESS: WORD = 0x0008;
pub const EVENTLOG_AUDIT_FAILURE: WORD = 0x0010;

pub const SERVICE_CONFIG_DESCRIPTION: DWORD = 1;
pub const SERVICE_CONFIG_FAILURE_ACTIONS: DWORD = 2;
pub const SERVICE_CONFIG_DELAYED_AUTO_START_INFO: DWORD = 3;
pub const SERVICE_CONFIG_FAILURE_ACTIONS_FLAG: DWORD = 4;
pub const SERVICE_CONFIG_SERVICE_SID_INFO: DWORD = 5;
pub const SERVICE_CONFIG_REQUIRED_PRIVILEGES_INFO: DWORD = 6;
pub const SERVICE_CONFIG_PRESHUTDOWN_INFO: DWORD = 7;
pub const SERVICE_CONFIG_TRIGGER_INFO: DWORD = 8;
pub const SERVICE_CONFIG_PREFERRED_NODE: DWORD = 9;

pub const SERVICE_CONTROL_STOP: DWORD = 0x1;
pub const SERVICE_CONTROL_PAUSE: DWORD = 0x2;
pub const SERVICE_CONTROL_CONTINUE: DWORD = 0x3;
pub const SERVICE_CONTROL_INTERROGATE: DWORD = 0x4;
pub const SERVICE_CONTROL_SHUTDOWN: DWORD = 0x5;
pub const SERVICE_CONTROL_PARAMCHANGE: DWORD = 0x6;
pub const SERVICE_CONTROL_NETBINDADD: DWORD = 0x7;
pub const SERVICE_CONTROL_NETBINDREMOVE: DWORD = 0x8;
pub const SERVICE_CONTROL_NETBINDENABLE: DWORD = 0x9;
pub const SERVICE_CONTROL_NETBINDDISABLE: DWORD = 0xA;
/// The controls-accepted bit for pausing and continuing.
pub const SERVICE_CONTROL_PAUSE_CONTINUE: DWORD = 0x2;

pub const SERVICE_RUNNING: DWORD = 0x4;
pub const SC_ENUM_PROCESS_INFO: DWORD = 0;

/// The size in bytes of a service description (one pointer).
pub const SERVICE_DESCRIPTIONW_SIZE: DWORD = 8;
/// The size in bytes of the delayed auto-start setting (one `BOOL`).
pub const SERVICE_DELAYED_AUTO_START_INFO_SIZE: DWORD = 4;
/// The size in bytes of a process service status (nine `DWORD`s).
pub const SERVICE_STATUS_PROCESS_SIZE: DWORD = 36;

/// An access control list header.
#[derive(Clone, Copy)]
pub struct ACL {
    pub AclRevision: u8,
    pub Sbz1: u8,
    pub AclSize: u16,
    pub AceCount: u16,
    pub Sbz2: u16,
}

/// Who an access entry is for: a name or a SID (a 64-bit value here).
#[derive(Clone, Copy)]
pub struct TRUSTEE_W {
    pub pMultipleTrustee: u64,
    pub MultipleTrusteeOperation: u32,
    pub TrusteeForm: u32,
    pub TrusteeType: u32,
    pub ptstrName: u64,
}

/// An access entry: rights, mode, inheritance, and trustee.
#[derive(Clone, Copy)]
pub struct EXPLICIT_ACCESS_W {
    pub grfAccessPermissions: DWORD,
    pub grfAccessMode: DWORD,
    pub grfInheritance: DWORD,
    pub Trustee: TRUSTEE_W,
}

/// The status of a service process.
#[derive(Clone, Copy)]
pub struct SERVICE_STATUS_PROCESS {
    pub dwServiceType: DWORD,
    pub dwCurrentState: DWORD,
    pub dwControlsAccepted: DWORD,
    pub dwWin32ExitCode: DWORD,
    pub dwServiceSpecificExitCode: DWORD,
    pub dwCheckPoint: DWORD,
    pub dwWaitHint: DWORD,
    pub dwProcessId: DWORD,
    pub dwServiceFlags: DWORD,
}

/// A service's description (a pointer to its text, 0 for none).
#[derive(Clone, Copy)]
pub struct SERVICE_DESCRIPTIONW {
    pub lpDescription: u64,
}

/// Whether a service starts late.
#[derive(Clone, Copy)]
pub struct SERVICE_DELAYED_AUTO_START_INFO {
    pub fDelayedAutostart: BOOL,
}

/// The calling thread's last-error value.
pub struct LastError {
    pub code: DWORD,
}

impl LastError {
    /// No error yet.
    pub fn new() -> (r: Self)
        ensures
            r.code == ERROR_SUCCESS,
    {
        LastError { code: ERROR_SUCCESS }
    }
}

/// Set the last-error value.
pub fn SetLastError(last: &mut LastError, code: DWORD)
    ensures
        final(last).code == code,
{
    last.code = code;
}

} // verus!
