//! The RPC runtime's data types: status codes, authentication constants,
//! UUIDs and the records kept for bindings and server interfaces.
//!
//! Handles that the C interface passes as pointers (bindings, interface
//! specifications, manager entry points, callbacks) are plain 64-bit
//! values here; 0 stands for a null handle.

#![allow(non_camel_case_types, non_snake_case)]

use vstd::prelude::*;

verus! {

/// An RPC status code.
pub type RPC_STATUS = u32;

/// A binding handle: 0 is null.
pub type RPC_BINDING_HANDLE = u64;

/// An interface specification handle: 0 is null.
pub type RPC_IF_HANDLE = u64;

pub const RPC_S_OK: RPC_STATUS = 0;
pub const RPC_S_INVALID_BINDING: RPC_STATUS = 0x6A6;
pub const RPC_S_WRONG_KIND_OF_BINDING: RPC_STATUS = 0x6A7;
pub const RPC_S_INVALID_STRING_BINDING: RPC_STATUS = 0x6A4;
pub const RPC_S_STRING_TOO_LONG: RPC_STATUS = 0x6B4;
pub const RPC_S_INVALID_STRING_UUID: RPC_STATUS = 0x6A8;
pub const RPC_S_PROTSEQ_NOT_SUPPORTED: RPC_STATUS = 0x6A7;
pub const RPC_S_OUT_OF_MEMORY: RPC_STATUS = 0x6BC;
pub const RPC_S_OUT_OF_RESOURCES: RPC_STATUS = 0x6B9;
pub const RPC_S_SERVER_UNAVAILABLE: RPC_STATUS = 0x6BA;
pub const RPC_S_SERVER_TOO_BUSY: RPC_STATUS = 0x6BB;
pub const RPC_S_INVALID_NETWORK_OPTIONS: RPC_STATUS = 0x6AC;
pub const RPC_S_NO_CALL_ACTIVE: RPC_STATUS = 0x6BD;
pub const RPC_S_CALL_FAILED: RPC_STATUS = 0x6BE;
pub const RPC_S_CALL_FAILED_DNE: RPC_STATUS = 0x6BF;
pub const RPC_S_PROTOCOL_ERROR: RPC_STATUS = 0x6C0;
pub const RPC_S_UNSUPPORTED_TYPE: RPC_STATUS = 0x6C2;
pub const RPC_S_INVALID_TAG: RPC_STATUS = 0x6C5;
pub const RPC_S_INVALID_BOUND: RPC_STATUS = 0x6C6;
pub const RPC_S_NO_ENTRY_NAME: RPC_STATUS = 0x6C7;
pub const RPC_S_INVALID_NAME_SYNTAX: RPC_STATUS = 0x6C8;
pub const RPC_S_UNSUPPORTED_NAME_SYNTAX: RPC_STATUS = 0x6C9;
pub const RPC_S_UUID_NO_ADDRESS: RPC_STATUS = 0x6CB;
pub const RPC_S_DUPLICATE_ENDPOINT: RPC_STATUS = 0x6CC;
pub const RPC_S_UNKNOWN_AUTHN_TYPE: RPC_STATUS = 0x6CD;
pub const RPC_S_MAX_CALLS_TOO_SMALL: RPC_STATUS = 0x6CE;
pub const RPC_S_STRING_TOO_SHORT: RPC_STATUS = 0x6CF;
pub const RPC_S_PROTSEQ_NOT_FOUND: RPC_STATUS = 0x6D0;
pub const RPC_S_PROCNUM_OUT_OF_RANGE: RPC_STATUS = 0x6D1;
pub const RPC_S_BINDING_HAS_NO_AUTH: RPC_STATUS = 0x6D2;
pub const RPC_S_UNKNOWN_AUTHN_SERVICE: RPC_STATUS = 0x6D3;
pub const RPC_S_UNKNOWN_AUTHN_LEVEL: RPC_STATUS = 0x6D4;
pub const RPC_S_INVALID_AUTH_IDENTITY: RPC_STATUS = 0x6D5;
pub const RPC_S_UNKNOWN_AUTHZ_SERVICE: RPC_STATUS = 0x6D6;
pub const RPC_S_NOTHING_TO_EXPORT: RPC_STATUS = 0x6DA;
pub const RPC_S_INCOMPLETE_NAME: RPC_STATUS = 0x6DB;
pub const RPC_S_INVALID_VERS_OPTION: RPC_STATUS = 0x6DC;
pub const RPC_S_NO_MORE_MEMBERS: RPC_STATUS = 0x6DD;
pub const RPC_S_NOT_ALL_OBJS_UNEXPORTED: RPC_STATUS = 0x6DE;
pub const RPC_S_INTERFACE_NOT_FOUND: RPC_STATUS = 0x6DF;
pub const RPC_S_ENTRY_ALREADY_EXISTS: RPC_STATUS = 0x6E0;
pub const RPC_S_ENTRY_NOT_FOUND: RPC_STATUS = 0x6E1;
pub const RPC_S_NAME_SERVICE_UNAVAILABLE: RPC_STATUS = 0x6E2;
pub const RPC_S_INVALID_NAF_ID: RPC_STATUS = 0x6E3;
pub const RPC_S_CANNOT_SUPPORT: RPC_STATUS = 0x6E4;
pub const RPC_S_NO_CONTEXT_AVAILABLE: RPC_STATUS = 0x6E5;
pub const RPC_S_INTERNAL_ERROR: RPC_STATUS = 0x6E6;
pub const RPC_S_ZERO_DIVIDE: RPC_STATUS = 0x6E7;
pub const RPC_S_ADDRESS_ERROR: RPC_STATUS = 0x6E8;
pub const RPC_S_FP_DIV_ZERO: RPC_STATUS = 0x6E9;
pub const RPC_S_FP_UNDERFLOW: RPC_STATUS = 0x6EA;
pub const RPC_S_FP_OVERFLOW: RPC_STATUS = 0x6EB;
pub const RPC_S_ALREADY_LISTENING: RPC_STATUS = 0x6F3;
pub const RPC_S_NO_PROTSEQS_REGISTERED: RPC_STATUS = 0x6F4;
pub const RPC_S_NOT_LISTENING: RPC_STATUS = 0x6F5;
pub const RPC_S_UNKNOWN_MGR_TYPE: RPC_STATUS = 0x6F6;
pub const RPC_S_UNKNOWN_IF: RPC_STATUS = 0x6F7;
pub const RPC_S_NO_BINDINGS: RPC_STATUS = 0x6F8;
pub const RPC_S_NO_PROTSEQS: RPC_STATUS = 0x6F9;
pub const RPC_S_CANT_CREATE_ENDPOINT: RPC_STATUS = 0x6FA;
pub const RPC_S_OUT_OF_THREADS: RPC_STATUS = 0x6FB;
pub const RPC_S_INVALID_TIMEOUT: RPC_STATUS = 0x6FD;
pub const RPC_C_AUTHN_LEVEL_DEFAULT: u32 = 0;
pub const RPC_C_AUTHN_LEVEL_NONE: u32 = 1;
pub const RPC_C_AUTHN_LEVEL_CONNECT: u32 = 2;
pub const RPC_C_AUTHN_LEVEL_CALL: u32 = 3;
pub const RPC_C_AUTHN_LEVEL_PKT: u32 = 4;
pub const RPC_C_AUTHN_LEVEL_PKT_INTEGRITY: u32 = 5;
pub const RPC_C_AUTHN_LEVEL_PKT_PRIVACY: u32 = 6;
pub const RPC_C_AUTHN_NONE: u32 = 0;
pub const RPC_C_AUTHN_DCE_PRIVATE: u32 = 1;
pub const RPC_C_AUTHN_DCE_PUBLIC: u32 = 2;
pub const RPC_C_AUTHN_DEC_PUBLIC: u32 = 4;
pub const RPC_C_AUTHN_WINNT: u32 = 10;
pub const RPC_C_AUTHN_GSS_NEGOTIATE: u32 = 9;
pub const RPC_C_AUTHN_GSS_KERBEROS: u32 = 16;
pub const RPC_C_AUTHN_DEFAULT: u32 = 0xFFFFFFFF;
pub const RPC_C_AUTHZ_NONE: u32 = 0;
pub const RPC_C_AUTHZ_NAME: u32 = 1;
pub const RPC_C_AUTHZ_DCE: u32 = 2;
pub const RPC_C_AUTHZ_DEFAULT: u32 = 0xFFFFFFFF;

/// A 128-bit universally unique identifier.
#[derive(Clone, Copy, Debug)]
pub struct UUID {
    pub data1: u32,
    pub data2: u16,
    pub data3: u16,
    pub data4: [u8; 8],
}

impl UUID {
    /// The nil UUID: every field zero.
    pub fn nil() -> (r: UUID)
        ensures
            r.data1 == 0 && r.data2 == 0 && r.data3 == 0,
            r.data4@ == Seq::new(8, |i: int| 0u8),
    {
        let r = UUID { data1: 0, data2: 0, data3: 0, data4: [0u8; 8] };
        assert(r.data4@ =~= Seq::new(8, |i: int| 0u8));
        r
    }
}

impl Default for UUID {
    fn default() -> (r: UUID)
        ensures
            r.data1 == 0 && r.data2 == 0 && r.data3 == 0,
            r.data4@ == Seq::new(8, |i: int| 0u8),
    {
        UUID::nil()
    }
}

/// The protocol sequence of local RPC, `ncalrpc`, NUL-terminated.
pub open spec fn protseq_ncalrpc_spec() -> Seq<u16> {
    seq![0x6Eu16, 0x63, 0x61, 0x6C, 0x72, 0x70, 0x63, 0]
}

/// The protocol sequence of RPC over named pipes, `ncacn_np`,
/// NUL-terminated.
pub open spec fn protseq_ncacn_np_spec() -> Seq<u16> {
    seq![0x6Eu16, 0x63, 0x61, 0x63, 0x6E, 0x5F, 0x6E, 0x70, 0]
}

/// The protocol sequence of RPC over TCP, `ncacn_ip_tcp`, NUL-terminated.
pub open spec fn protseq_ncacn_ip_tcp_spec() -> Seq<u16> {
    seq![0x6Eu16, 0x63, 0x61, 0x63, 0x6E, 0x5F, 0x69, 0x70, 0x5F, 0x74, 0x63, 0x70, 0]
}

/// `ncalrpc`, NUL-terminated.
pub fn PROTSEQ_NCALRPC() -> (r: [u16; 8])
    ensures
        r@ == protseq_ncalrpc_spec(),
{
    let r: [u16; 8] = [0x6E, 0x63, 0x61, 0x6C, 0x72, 0x70, 0x63, 0];
    assert(r@ =~= protseq_ncalrpc_spec());
    r
}

/// `ncacn_np`, NUL-terminated.
pub fn PROTSEQ_NCACN_NP() -> (r: [u16; 9])
    ensures
        r@ == protseq_ncacn_np_spec(),
{
    let r: [u16; 9] = [0x6E, 0x63, 0x61, 0x63, 0x6E, 0x5F, 0x6E, 0x70, 0];
    assert(r@ =~= protseq_ncacn_np_spec());
    r
}

/// `ncacn_ip_tcp`, NUL-terminated.
pub fn PROTSEQ_NCACN_IP_TCP() -> (r: [u16; 13])
    ensures
        r@ == protseq_ncacn_ip_tcp_spec(),
{
    let r: [u16; 13] = [0x6E, 0x63, 0x61, 0x63, 0x6E, 0x5F, 0x69, 0x70, 0x5F, 0x74, 0x63, 0x70, 0];
    assert(r@ =~= protseq_ncacn_ip_tcp_spec());
    r
}

/// The protocol sequences a server listens on.
pub struct RPC_PROTSEQ_VECTOR {
    pub count: u32,
    pub protseq: Vec<Vec<u16>>,
}

/// The bindings a server hands out: each binding record itself.
pub struct RPC_BINDING_VECTOR {
    pub count: u32,
    pub binding_h: Vec<RpcBindingInternal>,
}

/// An interface identifier: its UUID and version.
#[derive(Clone, Copy, Debug)]
pub struct RPC_IF_ID {
    pub uuid: UUID,
    pub vers_major: u16,
    pub vers_minor: u16,
}

/// What the runtime keeps for a binding: its protocol sequence, network
/// address, endpoint and options (NUL-terminated wide strings), its
/// object UUID, the LPC port it is connected on, its authentication
/// settings and its reference count.
#[derive(Clone, Copy)]
pub struct RpcBindingInternal {
    pub protseq: [u16; 16],
    pub network_addr: [u16; 128],
    pub endpoint: [u16; 64],
    pub options: [u16; 64],
    pub object_uuid: UUID,
    pub lpc_port_index: u32,
    pub auth_level: u32,
    pub auth_svc: u32,
    pub auth_identity: u64,
    pub authz_svc: u32,
    pub ref_count: u32,
}

impl RpcBindingInternal {
    /// A binding with empty strings, the nil object UUID, no port, no
    /// authentication, and one reference.
    pub open spec fn fresh(b: RpcBindingInternal) -> bool {
        &&& b.protseq@ == Seq::new(16, |i: int| 0u16)
        &&& b.network_addr@ == Seq::new(128, |i: int| 0u16)
        &&& b.endpoint@ == Seq::new(64, |i: int| 0u16)
        &&& b.options@ == Seq::new(64, |i: int| 0u16)
        &&& b.object_uuid.data1 == 0 && b.object_uuid.data2 == 0 && b.object_uuid.data3 == 0
        &&& b.object_uuid.data4@ == Seq::new(8, |i: int| 0u8)
        &&& b.lpc_port_index == 0
        &&& b.auth_level == RPC_C_AUTHN_LEVEL_NONE && b.auth_svc == RPC_C_AUTHN_NONE
        &&& b.auth_identity == 0 && b.authz_svc == RPC_C_AUTHZ_NONE
        &&& b.ref_count == 1
    }

    /// A fresh binding.
    pub fn new() -> (r: Self)
        ensures
            Self::fresh(r),
    {
        let r = RpcBindingInternal {
            protseq: [0u16; 16],
            network_addr: [0u16; 128],
            endpoint: [0u16; 64],
            options: [0u16; 64],
            object_uuid: UUID::nil(),
            lpc_port_index: 0,
            auth_level: RPC_C_AUTHN_LEVEL_NONE,
            auth_svc: RPC_C_AUTHN_NONE,
            auth_identity: 0,
            authz_svc: RPC_C_AUTHZ_NONE,
            ref_count: 1,
        };
        assert(r.protseq@ =~= Seq::new(16, |i: int| 0u16));
        assert(r.network_addr@ =~= Seq::new(128, |i: int| 0u16));
        assert(r.endpoint@ =~= Seq::new(64, |i: int| 0u16));
        assert(r.options@ =~= Seq::new(64, |i: int| 0u16));
        r
    }
}

/// A registered server interface.
#[derive(Clone, Copy)]
pub struct RpcServerInterface {
    pub if_spec: RPC_IF_HANDLE,
    pub mgr_type_uuid: UUID,
    pub mgr_epv: u64,
    pub flags: u32,
    pub max_calls: u32,
    pub max_rpc_size: u32,
    pub if_callback: u64,
    pub registered: bool,
}

impl RpcServerInterface {
    /// An empty interface slot.
    pub open spec fn empty_spec(r: RpcServerInterface) -> bool {
        &&& r.if_spec == 0 && r.mgr_epv == 0 && r.flags == 0 && r.max_calls == 0
        &&& r.max_rpc_size == 0 && r.if_callback == 0 && !r.registered
        &&& r.mgr_type_uuid.data1 == 0 && r.mgr_type_uuid.data2 == 0 && r.mgr_type_uuid.data3 == 0
        &&& r.mgr_type_uuid.data4@ == Seq::new(8, |i: int| 0u8)
    }

    /// An empty interface slot.
    pub fn new() -> (r: Self)
        ensures
            Self::empty_spec(r),
    {
        RpcServerInterface {
            if_spec: 0,
            mgr_type_uuid: UUID::nil(),
            mgr_epv: 0,
            flags: 0,
            max_calls: 0,
            max_rpc_size: 0,
            if_callback: 0,
            registered: false,
        }
    }
}

/// How many interfaces a server registers at most.
pub const MAX_SERVER_INTERFACES: usize = 32;

/// How many protocol sequences a server uses at most.
pub const MAX_PROTSEQS: usize = 8;

/// How many bindings live at once at most.
pub const MAX_BINDINGS: usize = 64;

} // verus!
