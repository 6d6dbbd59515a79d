//! Authentication settings of bindings, impersonation, and the security
//! entry points of servers.

use vstd::prelude::*;
use crate::rpcrt4::types::{RPC_STATUS, RPC_BINDING_HANDLE, RPC_IF_HANDLE, RpcBindingInternal, RPC_S_OK,
    RPC_S_INVALID_BINDING, RPC_S_UNKNOWN_AUTHN_LEVEL, RPC_S_UNKNOWN_AUTHN_SERVICE, RPC_S_UNKNOWN_AUTHZ_SERVICE,
    RPC_S_CANNOT_SUPPORT, RPC_C_AUTHN_LEVEL_DEFAULT, RPC_C_AUTHN_LEVEL_PKT_PRIVACY, RPC_C_AUTHN_NONE,
    RPC_C_AUTHN_DCE_PRIVATE, RPC_C_AUTHN_DCE_PUBLIC, RPC_C_AUTHN_DEC_PUBLIC, RPC_C_AUTHN_WINNT,
    RPC_C_AUTHN_GSS_NEGOTIATE, RPC_C_AUTHN_GSS_KERBEROS, RPC_C_AUTHN_DEFAULT, RPC_C_AUTHZ_NONE, RPC_C_AUTHZ_NAME,
    RPC_C_AUTHZ_DCE, RPC_C_AUTHZ_DEFAULT};
use crate::rpcrt4::binding::BindingRegistry;

verus! {

/// An authentication level the runtime knows: default, or none through
/// packet privacy.
pub open spec fn known_authn_level(level: u32) -> bool {
    RPC_C_AUTHN_LEVEL_DEFAULT <= level <= RPC_C_AUTHN_LEVEL_PKT_PRIVACY
}

/// An authentication service the runtime knows.
pub open spec fn known_authn_svc(svc: u32) -> bool {
    svc == RPC_C_AUTHN_NONE || svc == RPC_C_AUTHN_DCE_PRIVATE || svc == RPC_C_AUTHN_DCE_PUBLIC
        || svc == RPC_C_AUTHN_DEC_PUBLIC || svc == RPC_C_AUTHN_WINNT || svc == RPC_C_AUTHN_GSS_NEGOTIATE
        || svc == RPC_C_AUTHN_GSS_KERBEROS || svc == RPC_C_AUTHN_DEFAULT
}

/// An authorization service the runtime knows.
pub open spec fn known_authz_svc(svc: u32) -> bool {
    svc == RPC_C_AUTHZ_NONE || svc == RPC_C_AUTHZ_NAME || svc == RPC_C_AUTHZ_DCE || svc == RPC_C_AUTHZ_DEFAULT
}

fn is_known_authn_svc(svc: u32) -> (r: bool)
    ensures
        r == known_authn_svc(svc),
{
    svc == RPC_C_AUTHN_NONE || svc == RPC_C_AUTHN_DCE_PRIVATE || svc == RPC_C_AUTHN_DCE_PUBLIC
        || svc == RPC_C_AUTHN_DEC_PUBLIC || svc == RPC_C_AUTHN_WINNT || svc == RPC_C_AUTHN_GSS_NEGOTIATE
        || svc == RPC_C_AUTHN_GSS_KERBEROS || svc == RPC_C_AUTHN_DEFAULT
}

/// What setting authentication on a binding answers.
pub open spec fn set_auth_status(registry: &BindingRegistry, binding: u64, authn_level: u32, authn_svc: u32, authz_svc: u32) -> RPC_STATUS {
    if registry.binding_at(binding) is None {
        RPC_S_INVALID_BINDING
    } else if !known_authn_level(authn_level) {
        RPC_S_UNKNOWN_AUTHN_LEVEL
    } else if !known_authn_svc(authn_svc) {
        RPC_S_UNKNOWN_AUTHN_SERVICE
    } else if !known_authz_svc(authz_svc) {
        RPC_S_UNKNOWN_AUTHZ_SERVICE
    } else {
        RPC_S_OK
    }
}

/// Set the authentication of the binding a handle names: its level,
/// service, identity and authorization service (`RPC_S_OK`). A null
/// handle, or one that names no live binding, gives
/// `RPC_S_INVALID_BINDING`; an unknown level, service or authorization
/// service gives `RPC_S_UNKNOWN_AUTHN_LEVEL`,
/// `RPC_S_UNKNOWN_AUTHN_SERVICE` or `RPC_S_UNKNOWN_AUTHZ_SERVICE`, checked
/// in that order; nothing changes then. The principal name is not kept.
#[allow(non_snake_case)]
pub fn RpcBindingSetAuthInfoW(registry: &mut BindingRegistry, binding: RPC_BINDING_HANDLE, server_princ_name: Option<&[u16]>,
    authn_level: u32, authn_svc: u32, auth_identity: u64, authz_svc: u32) -> (r: RPC_STATUS)
    requires
        old(registry).wf(),
    ensures
        final(registry).wf(),
        final(registry).count == old(registry).count,
        r == set_auth_status(old(registry), binding, authn_level, authn_svc, authz_svc),
        r == RPC_S_OK ==> final(registry).bindings@ == old(registry).bindings@.update(binding - 1,
            Some(RpcBindingInternal { auth_level: authn_level, auth_svc: authn_svc, auth_identity, authz_svc,
                ..old(registry).binding_at(binding).unwrap() })),
        r != RPC_S_OK ==> final(registry).bindings@ == old(registry).bindings@,
{
    let b = match registry.get(binding) {
        None => return RPC_S_INVALID_BINDING,
        Some(b) => b,
    };
    if authn_level > RPC_C_AUTHN_LEVEL_PKT_PRIVACY {
        return RPC_S_UNKNOWN_AUTHN_LEVEL;
    }
    if !is_known_authn_svc(authn_svc) {
        return RPC_S_UNKNOWN_AUTHN_SERVICE;
    }
    if !(authz_svc == RPC_C_AUTHZ_NONE || authz_svc == RPC_C_AUTHZ_NAME || authz_svc == RPC_C_AUTHZ_DCE
        || authz_svc == RPC_C_AUTHZ_DEFAULT) {
        return RPC_S_UNKNOWN_AUTHZ_SERVICE;
    }
    registry.put(binding, RpcBindingInternal { auth_level: authn_level, auth_svc: authn_svc, auth_identity, authz_svc, ..b });
    RPC_S_OK
}

/// Set the authentication of a binding as `RpcBindingSetAuthInfoW` does;
/// the quality of service plays no part.
#[allow(non_snake_case)]
pub fn RpcBindingSetAuthInfoExW(registry: &mut BindingRegistry, binding: RPC_BINDING_HANDLE, server_princ_name: Option<&[u16]>,
    authn_level: u32, authn_svc: u32, auth_identity: u64, authz_svc: u32, security_qos: u64) -> (r: RPC_STATUS)
    requires
        old(registry).wf(),
    ensures
        final(registry).wf(),
        final(registry).count == old(registry).count,
        r == set_auth_status(old(registry), binding, authn_level, authn_svc, authz_svc),
        r == RPC_S_OK ==> final(registry).bindings@ == old(registry).bindings@.update(binding - 1,
            Some(RpcBindingInternal { auth_level: authn_level, auth_svc: authn_svc, auth_identity, authz_svc,
                ..old(registry).binding_at(binding).unwrap() })),
        r != RPC_S_OK ==> final(registry).bindings@ == old(registry).bindings@,
{
    RpcBindingSetAuthInfoW(registry, binding, server_princ_name, authn_level, authn_svc, auth_identity, authz_svc)
}

/// The authentication of the binding a handle names: level, service,
/// identity and authorization service, and an empty principal name
/// (`RPC_S_OK`); `RPC_S_INVALID_BINDING`, with nothing written, for a null
/// handle or one that names no live binding.
#[allow(non_snake_case)]
pub fn RpcBindingInqAuthInfoW(registry: &BindingRegistry, binding: RPC_BINDING_HANDLE, server_princ_name: &mut Vec<u16>,
    authn_level: &mut u32, authn_svc: &mut u32, auth_identity: &mut u64, authz_svc: &mut u32) -> (r: RPC_STATUS)
    requires
        registry.wf(),
    ensures
        r == (if registry.binding_at(binding) is Some { RPC_S_OK } else { RPC_S_INVALID_BINDING }),
        registry.binding_at(binding) matches Some(b) ==> *final(authn_level) == b.auth_level && *final(authn_svc) == b.auth_svc
            && *final(auth_identity) == b.auth_identity && *final(authz_svc) == b.authz_svc
            && final(server_princ_name)@ == seq![0u16],
        registry.binding_at(binding) is None ==> *final(authn_level) == *old(authn_level) && *final(authn_svc) == *old(authn_svc)
            && *final(auth_identity) == *old(auth_identity) && *final(authz_svc) == *old(authz_svc)
            && *final(server_princ_name) == *old(server_princ_name),
{
    match registry.get(binding) {
        None => RPC_S_INVALID_BINDING,
        Some(b) => {
            *authn_level = b.auth_level;
            *authn_svc = b.auth_svc;
            *auth_identity = b.auth_identity;
            *authz_svc = b.authz_svc;
            let mut v: Vec<u16> = Vec::new();
            v.push(0);
            *server_princ_name = v;
            RPC_S_OK
        },
    }
}

/// The authentication of a binding as `RpcBindingInqAuthInfoW` gives it;
/// the quality-of-service arguments play no part.
#[allow(non_snake_case)]
pub fn RpcBindingInqAuthInfoExW(registry: &BindingRegistry, binding: RPC_BINDING_HANDLE, server_princ_name: &mut Vec<u16>,
    authn_level: &mut u32, authn_svc: &mut u32, auth_identity: &mut u64, authz_svc: &mut u32, rpc_qos_version: u32,
    security_qos: u64) -> (r: RPC_STATUS)
    requires
        registry.wf(),
    ensures
        r == (if registry.binding_at(binding) is Some { RPC_S_OK } else { RPC_S_INVALID_BINDING }),
        registry.binding_at(binding) matches Some(b) ==> *final(authn_level) == b.auth_level && *final(authn_svc) == b.auth_svc
            && *final(auth_identity) == b.auth_identity && *final(authz_svc) == b.authz_svc
            && final(server_princ_name)@ == seq![0u16],
        registry.binding_at(binding) is None ==> *final(authn_level) == *old(authn_level) && *final(authn_svc) == *old(authn_svc)
            && *final(auth_identity) == *old(auth_identity) && *final(authz_svc) == *old(authz_svc)
            && *final(server_princ_name) == *old(server_princ_name),
{
    RpcBindingInqAuthInfoW(registry, binding, server_princ_name, authn_level, authn_svc, auth_identity, authz_svc)
}

/// The binding a server thread impersonates the client of; 0 for none.
pub struct ImpersonationState {
    pub context: RPC_BINDING_HANDLE,
}

impl ImpersonationState {
    /// No impersonation.
    pub fn new() -> (r: Self)
        ensures
            r.context == 0,
    {
        ImpersonationState { context: 0 }
    }
}

/// Impersonate the client of a binding: a null handle changes nothing.
/// Always `RPC_S_OK`.
#[allow(non_snake_case)]
pub fn RpcImpersonateClient(state: &mut ImpersonationState, binding_handle: RPC_BINDING_HANDLE) -> (r: RPC_STATUS)
    ensures
        r == RPC_S_OK,
        final(state).context == (if binding_handle != 0 { binding_handle } else { old(state).context }),
{
    if binding_handle != 0 {
        state.context = binding_handle;
    }
    RPC_S_OK
}

/// Stop impersonating. Always `RPC_S_OK`.
#[allow(non_snake_case)]
pub fn RpcRevertToSelf(state: &mut ImpersonationState) -> (r: RPC_STATUS)
    ensures
        r == RPC_S_OK,
        final(state).context == 0,
{
    state.context = 0;
    RPC_S_OK
}

/// Stop impersonating the client of this binding, if that is the one
/// impersonated. Always `RPC_S_OK`.
#[allow(non_snake_case)]
pub fn RpcRevertToSelfEx(state: &mut ImpersonationState, binding_handle: RPC_BINDING_HANDLE) -> (r: RPC_STATUS)
    ensures
        r == RPC_S_OK,
        final(state).context == (if binding_handle != 0 && old(state).context == binding_handle { 0 } else { old(state).context }),
{
    if binding_handle != 0 && state.context == binding_handle {
        state.context = 0;
    }
    RPC_S_OK
}

/// The client authentication of the binding a handle names: its identity
/// as privileges, an empty principal name, level, service and
/// authorization service (`RPC_S_OK`); `RPC_S_INVALID_BINDING`, with
/// nothing written, for a null handle or one that names no live binding.
#[allow(non_snake_case)]
pub fn RpcBindingInqAuthClientW(registry: &BindingRegistry, client_binding: RPC_BINDING_HANDLE, privs: &mut u64,
    server_princ_name: &mut Vec<u16>, authn_level: &mut u32, authn_svc: &mut u32, authz_svc: &mut u32) -> (r: RPC_STATUS)
    requires
        registry.wf(),
    ensures
        r == (if registry.binding_at(client_binding) is Some { RPC_S_OK } else { RPC_S_INVALID_BINDING }),
        registry.binding_at(client_binding) matches Some(b) ==> *final(authn_level) == b.auth_level
            && *final(authn_svc) == b.auth_svc && *final(privs) == b.auth_identity && *final(authz_svc) == b.authz_svc
            && final(server_princ_name)@ == seq![0u16],
        registry.binding_at(client_binding) is None ==> *final(authn_level) == *old(authn_level)
            && *final(authn_svc) == *old(authn_svc) && *final(privs) == *old(privs) && *final(authz_svc) == *old(authz_svc)
            && *final(server_princ_name) == *old(server_princ_name),
{
    let mut identity: u64 = *privs;
    let r = RpcBindingInqAuthInfoW(registry, client_binding, server_princ_name, authn_level, authn_svc, &mut identity, authz_svc);
    *privs = identity;
    r
}

/// The client authentication of a binding as `RpcBindingInqAuthClientW`
/// gives it; the flags play no part.
#[allow(non_snake_case)]
pub fn RpcBindingInqAuthClientExW(registry: &BindingRegistry, client_binding: RPC_BINDING_HANDLE, privs: &mut u64,
    server_princ_name: &mut Vec<u16>, authn_level: &mut u32, authn_svc: &mut u32, authz_svc: &mut u32, flags: u32) -> (r: RPC_STATUS)
    requires
        registry.wf(),
    ensures
        r == (if registry.binding_at(client_binding) is Some { RPC_S_OK } else { RPC_S_INVALID_BINDING }),
        registry.binding_at(client_binding) matches Some(b) ==> *final(authn_level) == b.auth_level
            && *final(authn_svc) == b.auth_svc && *final(privs) == b.auth_identity && *final(authz_svc) == b.authz_svc
            && final(server_princ_name)@ == seq![0u16],
        registry.binding_at(client_binding) is None ==> *final(authn_level) == *old(authn_level)
            && *final(authn_svc) == *old(authn_svc) && *final(privs) == *old(privs) && *final(authz_svc) == *old(authz_svc)
            && *final(server_princ_name) == *old(server_princ_name),
{
    RpcBindingInqAuthClientW(registry, client_binding, privs, server_princ_name, authn_level, authn_svc, authz_svc)
}

/// Set an option of a binding: `RPC_S_INVALID_BINDING` for a null handle,
/// else `RPC_S_OK` (options are not kept).
#[allow(non_snake_case)]
pub fn RpcBindingSetOption(binding: RPC_BINDING_HANDLE, option: u32, option_value: usize) -> (r: RPC_STATUS)
    ensures
        r == (if binding == 0 { RPC_S_INVALID_BINDING } else { RPC_S_OK }),
{
    if binding == 0 { RPC_S_INVALID_BINDING } else { RPC_S_OK }
}

/// An option of a binding: 0 (`RPC_S_OK`); `RPC_S_INVALID_BINDING`, with
/// nothing written, for a null handle.
#[allow(non_snake_case)]
pub fn RpcBindingInqOption(binding: RPC_BINDING_HANDLE, option: u32, option_value: &mut usize) -> (r: RPC_STATUS)
    ensures
        r == (if binding == 0 { RPC_S_INVALID_BINDING } else { RPC_S_OK }),
        *final(option_value) == (if binding == 0 { *old(option_value) } else { 0 }),
{
    if binding == 0 {
        return RPC_S_INVALID_BINDING;
    }
    *option_value = 0;
    RPC_S_OK
}

/// Register the server's authentication: `RPC_S_UNKNOWN_AUTHN_SERVICE`
/// for a service the runtime does not know, else `RPC_S_OK`.
#[allow(non_snake_case)]
pub fn RpcServerRegisterAuthInfoW(server_princ_name: Option<&[u16]>, authn_svc: u32, get_key_fn: u64, arg: u64) -> (r: RPC_STATUS)
    ensures
        r == (if known_authn_svc(authn_svc) { RPC_S_OK } else { RPC_S_UNKNOWN_AUTHN_SERVICE }),
{
    if is_known_authn_svc(authn_svc) { RPC_S_OK } else { RPC_S_UNKNOWN_AUTHN_SERVICE }
}

/// The server's default principal name: the empty string. Always
/// `RPC_S_OK`.
#[allow(non_snake_case)]
pub fn RpcServerInqDefaultPrincNameW(authn_svc: u32, princ_name: &mut Vec<u16>) -> (r: RPC_STATUS)
    ensures
        r == RPC_S_OK,
        final(princ_name)@ == seq![0u16],
{
    let mut v: Vec<u16> = Vec::new();
    v.push(0);
    *princ_name = v;
    RPC_S_OK
}

/// Register a security callback for an interface:
/// `RPC_S_INVALID_BINDING` for a null interface, else `RPC_S_OK` (the
/// callback is not kept).
#[allow(non_snake_case)]
pub fn RpcServerRegisterIfCallback(if_spec: RPC_IF_HANDLE, callback_fn: u64) -> (r: RPC_STATUS)
    ensures
        r == (if if_spec == 0 { RPC_S_INVALID_BINDING } else { RPC_S_OK }),
{
    if if_spec == 0 { RPC_S_INVALID_BINDING } else { RPC_S_OK }
}

/// The authorization context of a client: there is none to give, so the
/// handle is nulled and the answer is `RPC_S_CANNOT_SUPPORT`;
/// `RPC_S_INVALID_BINDING`, with nothing written, for a null binding.
#[allow(non_snake_case)]
pub fn RpcGetAuthorizationContextForClient(client_binding: RPC_BINDING_HANDLE, impersonation_on_return: i32, reserved1: u64,
    expiration_time: Option<i64>, reserved2: u64, reserved3: u32, reserved4: u64, authz_context_handle: &mut u64) -> (r: RPC_STATUS)
    ensures
        r == (if client_binding == 0 { RPC_S_INVALID_BINDING } else { RPC_S_CANNOT_SUPPORT }),
        *final(authz_context_handle) == (if client_binding == 0 { *old(authz_context_handle) } else { 0 }),
{
    if client_binding == 0 {
        return RPC_S_INVALID_BINDING;
    }
    *authz_context_handle = 0;
    RPC_S_CANNOT_SUPPORT
}

} // verus!
