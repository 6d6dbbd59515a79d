//! The server side: the protocol sequences a server uses, the interfaces
//! it registers, whether it listens, and the bindings it hands out.
//!
//! Creating the LPC port for an `ncalrpc` endpoint happens outside:
//! `RpcServerUseProtseqEpW` names the port to create, and
//! `set_last_protseq_port` records the port that was made.

use vstd::prelude::*;
use crate::rpcrt4::types::{RPC_STATUS, RPC_IF_HANDLE, RPC_BINDING_HANDLE, UUID, RpcServerInterface, RpcBindingInternal,
    RPC_BINDING_VECTOR, MAX_SERVER_INTERFACES, MAX_PROTSEQS, RPC_S_OK, RPC_S_INVALID_STRING_BINDING,
    RPC_S_DUPLICATE_ENDPOINT, RPC_S_OUT_OF_RESOURCES, RPC_S_INVALID_BINDING, RPC_S_ENTRY_ALREADY_EXISTS,
    RPC_S_INTERFACE_NOT_FOUND, RPC_S_ALREADY_LISTENING, RPC_S_NO_PROTSEQS_REGISTERED, RPC_S_NOTHING_TO_EXPORT,
    RPC_S_NOT_LISTENING, RPC_S_NO_BINDINGS, PROTSEQ_NCALRPC, PROTSEQ_NCACN_NP, protseq_ncalrpc_spec,
    protseq_ncacn_np_spec};
use crate::rpcrt4::wstr::{wlen, wstr, copied, copy_wstr, compare_wstr, lemma_wlen};
use crate::rpcrt4::binding::field;
use crate::rpcrt4::client::rpc_control_prefix;

verus! {

/// A server's state: its registered interfaces (the first
/// `interface_count` slots), the protocol sequences it uses (the first
/// `protseq_count`), whether it listens, its call limit, and the LPC port
/// of each protocol sequence.
pub struct ServerState {
    pub interfaces: Vec<RpcServerInterface>,
    pub interface_count: usize,
    pub protseqs: Vec<[u16; 16]>,
    pub protseq_count: usize,
    pub is_listening: bool,
    pub max_calls: u32,
    pub lpc_ports: [u32; 8],
}

impl ServerState {
    /// The tables have their slots and the counts stay within them.
    pub open spec fn wf(&self) -> bool {
        &&& self.interfaces@.len() == MAX_SERVER_INTERFACES
        &&& self.interface_count <= MAX_SERVER_INTERFACES
        &&& self.protseqs@.len() == MAX_PROTSEQS
        &&& self.protseq_count <= MAX_PROTSEQS
    }

    /// A server with nothing registered, not listening.
    pub fn new() -> (r: Self)
        ensures
            r.wf(),
            r.interface_count == 0 && r.protseq_count == 0 && !r.is_listening && r.max_calls == 0,
            r.lpc_ports@ == Seq::new(8, |i: int| 0u32),
    {
        let mut interfaces: Vec<RpcServerInterface> = Vec::new();
        let mut i: usize = 0;
        while i < MAX_SERVER_INTERFACES
            invariant
                i <= MAX_SERVER_INTERFACES,
                interfaces@.len() == i,
            decreases MAX_SERVER_INTERFACES - i,
        {
            interfaces.push(RpcServerInterface::new());
            i = i + 1;
        }
        let mut protseqs: Vec<[u16; 16]> = Vec::new();
        let mut j: usize = 0;
        while j < MAX_PROTSEQS
            invariant
                j <= MAX_PROTSEQS,
                protseqs@.len() == j,
            decreases MAX_PROTSEQS - j,
        {
            protseqs.push([0u16; 16]);
            j = j + 1;
        }
        let lpc_ports: [u32; 8] = [0u32; 8];
        assert(lpc_ports@ =~= Seq::new(8, |i: int| 0u32));
        ServerState {
            interfaces,
            interface_count: 0,
            protseqs,
            protseq_count: 0,
            is_listening: false,
            max_calls: 0,
            lpc_ports,
        }
    }
}

/// The server already uses a protocol sequence equal to the string in
/// `p`.
pub open spec fn uses_protseq(st: &ServerState, p: Seq<u16>) -> bool {
    exists|i: int| 0 <= i < st.protseq_count && #[trigger] stored_matches(st.protseqs@[i]@, p)
}

/// A stored protocol sequence, terminated within its slot, equals the
/// string in `p`.
pub open spec fn stored_matches(stored: Seq<u16>, p: Seq<u16>) -> bool {
    wlen(stored) < stored.len() && wstr(stored) == wstr(p)
}

/// The server after it takes on protocol sequence `p` with call limit
/// `max_calls`: `p` in the next slot (cut to 15 units and terminated),
/// the count one higher, the call limit raised to `max_calls`.
pub open spec fn protseq_added(a: &ServerState, b: &ServerState, p: Seq<u16>, max_calls: u32) -> bool {
    let n = if wlen(p) < 15 { wlen(p) } else { 15 };
    &&& b.protseq_count == a.protseq_count + 1
    &&& b.protseqs@.len() == a.protseqs@.len()
    &&& forall|i: int| 0 <= i < a.protseqs@.len() && i != a.protseq_count ==> #[trigger] b.protseqs@[i] == a.protseqs@[i]
    &&& b.protseqs@[a.protseq_count as int]@ == copied(a.protseqs@[a.protseq_count as int]@, p, n)
    &&& b.max_calls == if max_calls > a.max_calls { max_calls } else { a.max_calls }
    &&& b.interfaces@ == a.interfaces@ && b.interface_count == a.interface_count
    &&& b.is_listening == a.is_listening && b.lpc_ports == a.lpc_ports
}

/// Nothing in the server changed.
pub open spec fn server_unchanged(a: &ServerState, b: &ServerState) -> bool {
    &&& b.protseqs@ == a.protseqs@ && b.protseq_count == a.protseq_count
    &&& b.interfaces@ == a.interfaces@ && b.interface_count == a.interface_count
    &&& b.is_listening == a.is_listening && b.max_calls == a.max_calls && b.lpc_ports == a.lpc_ports
}

/// What `RpcServerUseProtseqW` answers for protocol sequence `p`.
pub open spec fn use_protseq_status(st: &ServerState, p: Option<Seq<u16>>) -> RPC_STATUS {
    match p {
        None => RPC_S_INVALID_STRING_BINDING,
        Some(x) => if uses_protseq(st, x) {
            RPC_S_DUPLICATE_ENDPOINT
        } else if st.protseq_count >= MAX_PROTSEQS {
            RPC_S_OUT_OF_RESOURCES
        } else {
            RPC_S_OK
        },
    }
}

pub open spec fn opt_seq(p: Option<&[u16]>) -> Option<Seq<u16>> {
    match p {
        Some(x) => Some(x@),
        None => None,
    }
}

/// Take on a protocol sequence (a terminated string):
/// `RPC_S_INVALID_STRING_BINDING` when none is given,
/// `RPC_S_DUPLICATE_ENDPOINT` when the server already uses it,
/// `RPC_S_OUT_OF_RESOURCES` when it uses the maximum number, nothing
/// changed in each case; else it is stored in the next slot and the call
/// limit raised to `max_calls` (`RPC_S_OK`).
#[allow(non_snake_case)]
pub fn RpcServerUseProtseqW(state: &mut ServerState, protseq: Option<&[u16]>, max_calls: u32, security_descriptor: u64) -> (r: RPC_STATUS)
    requires
        old(state).wf(),
    ensures
        final(state).wf(),
        r == use_protseq_status(old(state), opt_seq(protseq)),
        r == RPC_S_OK ==> protseq_added(old(state), final(state), protseq.unwrap()@, max_calls),
        r != RPC_S_OK ==> server_unchanged(old(state), final(state)),
{
    let p = match protseq {
        None => return RPC_S_INVALID_STRING_BINDING,
        Some(p) => p,
    };
    let mut i: usize = 0;
    while i < state.protseq_count
        invariant
            old(state).wf(),
            *state == *old(state),
            opt_seq(protseq) == Some(p@),
            i <= state.protseq_count,
            forall|j: int| 0 <= j < i ==> !#[trigger] stored_matches(state.protseqs@[j]@, p@),
        decreases state.protseq_count - i,
    {
        if compare_wstr(state.protseqs[i].as_slice(), p) {
            assert(stored_matches(state.protseqs@[i as int]@, p@));
            assert(stored_matches(old(state).protseqs@[i as int]@, p@));
            return RPC_S_DUPLICATE_ENDPOINT;
        }
        i = i + 1;
    }
    if state.protseq_count >= MAX_PROTSEQS {
        return RPC_S_OUT_OF_RESOURCES;
    }
    let idx = state.protseq_count;
    let mut slot = state.protseqs[idx];
    let n = copy_wstr(&mut slot, p);
    state.protseqs.set(idx, slot);
    state.protseq_count = state.protseq_count + 1;
    if max_calls > state.max_calls {
        state.max_calls = max_calls;
    }
    proof {
        assert forall|i: int| 0 <= i < old(state).protseqs@.len() && i != old(state).protseq_count implies
            #[trigger] state.protseqs@[i] == old(state).protseqs@[i] by {}
    }
    RPC_S_OK
}

/// Write the LPC port made for the last protocol sequence taken on.
pub fn set_last_protseq_port(state: &mut ServerState, port: u32)
    requires
        old(state).wf(),
        old(state).protseq_count >= 1,
    ensures
        final(state).wf(),
        final(state).lpc_ports@ == old(state).lpc_ports@.update(old(state).protseq_count - 1, port),
        final(state).protseqs@ == old(state).protseqs@ && final(state).protseq_count == old(state).protseq_count,
        final(state).interfaces@ == old(state).interfaces@ && final(state).interface_count == old(state).interface_count,
        final(state).is_listening == old(state).is_listening && final(state).max_calls == old(state).max_calls,
{
    let idx = state.protseq_count - 1;
    state.lpc_ports[idx] = port;
}

/// The LPC port name for an endpoint: `\RPC Control\` and the endpoint's
/// string, cut so the name stays within 127 units.
pub open spec fn server_port_name(endpoint: Seq<u16>) -> Seq<u16> {
    rpc_control_prefix() + wstr(endpoint).take(if wstr(endpoint).len() < 114 { wstr(endpoint).len() as int } else { 114 })
}

fn server_port_name_for(endpoint: &[u16]) -> (r: Vec<u16>)
    ensures
        r@ == server_port_name(endpoint@),
{
    let prefix: [u16; 13] = [0x5C, 0x52, 0x50, 0x43, 0x20, 0x43, 0x6F, 0x6E, 0x74, 0x72, 0x6F, 0x6C, 0x5C];
    let mut out: Vec<u16> = Vec::new();
    let mut i: usize = 0;
    while i < 13
        invariant
            i <= 13,
            prefix@ == rpc_control_prefix(),
            out@ == rpc_control_prefix().take(i as int),
        decreases 13 - i,
    {
        proof {
            assert(rpc_control_prefix().take(i + 1) =~= rpc_control_prefix().take(i as int).push(prefix@[i as int]));
        }
        out.push(prefix[i]);
        i = i + 1;
    }
    proof {
        assert(rpc_control_prefix().take(13) =~= rpc_control_prefix());
        lemma_wlen(endpoint@);
    }
    let len = crate::rpcrt4::wstr::wstrlen(endpoint);
    let n: usize = if len < 114 { len } else { 114 };
    let mut j: usize = 0;
    while j < n
        invariant
            j <= n,
            n <= len,
            len == wlen(endpoint@),
            len <= endpoint@.len(),
            out@ == rpc_control_prefix() + endpoint@.take(j as int),
        decreases n - j,
    {
        proof {
            assert(endpoint@.take(j + 1) =~= endpoint@.take(j as int).push(endpoint@[j as int]));
        }
        out.push(endpoint[j]);
        j = j + 1;
    }
    proof {
        assert(endpoint@.take(n as int) =~= wstr(endpoint@).take(n as int));
    }
    out
}

/// Take on a protocol sequence as `RpcServerUseProtseqW` does, and for
/// `ncalrpc` with an endpoint name the LPC port to create for it,
/// `\RPC Control\<endpoint>`; the status, and the port name where one is
/// to be made.
#[allow(non_snake_case)]
pub fn RpcServerUseProtseqEpW(state: &mut ServerState, protseq: Option<&[u16]>, max_calls: u32, endpoint: Option<&[u16]>,
    security_descriptor: u64) -> (r: (RPC_STATUS, Option<Vec<u16>>))
    requires
        old(state).wf(),
    ensures
        final(state).wf(),
        r.0 == use_protseq_status(old(state), opt_seq(protseq)),
        r.0 == RPC_S_OK ==> protseq_added(old(state), final(state), protseq.unwrap()@, max_calls),
        r.0 != RPC_S_OK ==> server_unchanged(old(state), final(state)) && r.1 is None,
        r.0 == RPC_S_OK ==> match endpoint {
            Some(e) => if wstr(protseq.unwrap()@) == wstr(protseq_ncalrpc_spec()) {
                r.1 matches Some(name) && name@ == server_port_name(e@)
            } else {
                r.1 is None
            },
            None => r.1 is None,
        },
{
    let status = RpcServerUseProtseqW(state, protseq, max_calls, security_descriptor);
    if status != RPC_S_OK {
        return (status, None);
    }
    match endpoint {
        None => (RPC_S_OK, None),
        Some(e) => {
            let ncalrpc = PROTSEQ_NCALRPC();
            let p = protseq.unwrap();
            if compare_wstr(ncalrpc.as_slice(), p) {
                proof {
                    crate::rpcrt4::wstr::lemma_wlen_unique(ncalrpc@, 7);
                }
                (RPC_S_OK, Some(server_port_name_for(e)))
            } else {
                proof {
                    crate::rpcrt4::wstr::lemma_wlen_unique(ncalrpc@, 7);
                }
                (RPC_S_OK, None)
            }
        },
    }
}

/// One step of taking on protocol sequence `p`: `b` is `a` with `p`
/// added when `RpcServerUseProtseqW` accepts it, else `a` unchanged.
pub open spec fn use_step(a: &ServerState, b: &ServerState, p: Seq<u16>, max_calls: u32) -> bool {
    if use_protseq_status(a, Some(p)) == RPC_S_OK {
        protseq_added(a, b, p, max_calls)
    } else {
        server_unchanged(a, b)
    }
}

/// A status that `RpcServerUseAllProtseqs` passes on: a failure other
/// than a protocol sequence already in use.
pub open spec fn fails(s: RPC_STATUS) -> bool {
    s != RPC_S_OK && s != RPC_S_DUPLICATE_ENDPOINT
}

/// Take on `ncalrpc` and then `ncacn_np`; one the server already uses is
/// no failure. The first other failure is the status, and the state is
/// what the steps before it left; else `RPC_S_OK`.
#[allow(non_snake_case)]
pub fn RpcServerUseAllProtseqs(state: &mut ServerState, max_calls: u32, security_descriptor: u64) -> (r: RPC_STATUS)
    requires
        old(state).wf(),
    ensures
        final(state).wf(),
        exists|mid: ServerState| #[trigger] use_step(old(state), &mid, protseq_ncalrpc_spec(), max_calls) && mid.wf() && ({
            let s1 = use_protseq_status(old(state), Some(protseq_ncalrpc_spec()));
            let s2 = use_protseq_status(&mid, Some(protseq_ncacn_np_spec()));
            if fails(s1) {
                r == s1 && server_unchanged(old(state), final(state))
            } else {
                use_step(&mid, final(state), protseq_ncacn_np_spec(), max_calls)
                    && r == (if fails(s2) { s2 } else { RPC_S_OK })
            }
        }),
{
    let a = PROTSEQ_NCALRPC();
    let b = PROTSEQ_NCACN_NP();
    let s1 = RpcServerUseProtseqW(state, Some(a.as_slice()), max_calls, security_descriptor);
    let ghost mid = *state;
    assert(use_step(old(state), &mid, protseq_ncalrpc_spec(), max_calls));
    if s1 != RPC_S_OK && s1 != RPC_S_DUPLICATE_ENDPOINT {
        return s1;
    }
    let s2 = RpcServerUseProtseqW(state, Some(b.as_slice()), max_calls, security_descriptor);
    assert(use_step(&mid, state, protseq_ncacn_np_spec(), max_calls));
    if s2 != RPC_S_OK && s2 != RPC_S_DUPLICATE_ENDPOINT {
        return s2;
    }
    RPC_S_OK
}

/// Take on every protocol sequence for one interface: the interface plays
/// no part.
#[allow(non_snake_case)]
pub fn RpcServerUseAllProtseqsIf(state: &mut ServerState, max_calls: u32, if_spec: RPC_IF_HANDLE, security_descriptor: u64) -> (r: RPC_STATUS)
    requires
        old(state).wf(),
    ensures
        final(state).wf(),
        exists|mid: ServerState| #[trigger] use_step(old(state), &mid, protseq_ncalrpc_spec(), max_calls) && mid.wf() && ({
            let s1 = use_protseq_status(old(state), Some(protseq_ncalrpc_spec()));
            let s2 = use_protseq_status(&mid, Some(protseq_ncacn_np_spec()));
            if fails(s1) {
                r == s1 && server_unchanged(old(state), final(state))
            } else {
                use_step(&mid, final(state), protseq_ncacn_np_spec(), max_calls)
                    && r == (if fails(s2) { s2 } else { RPC_S_OK })
            }
        }),
{
    RpcServerUseAllProtseqs(state, max_calls, security_descriptor)
}

// =============================================================================
// Interfaces
// =============================================================================

/// An interface registered in the first `count` slots has this
/// specification.
pub open spec fn registered_spec(s: Seq<RpcServerInterface>, count: int, if_spec: u64) -> bool {
    exists|i: int| 0 <= i < count && #[trigger] s[i].if_spec == if_spec
}

/// What registering an interface answers.
pub open spec fn register_status(st: &ServerState, if_spec: u64) -> RPC_STATUS {
    if if_spec == 0 {
        RPC_S_INVALID_BINDING
    } else if registered_spec(st.interfaces@, st.interface_count as int, if_spec) {
        RPC_S_ENTRY_ALREADY_EXISTS
    } else if st.interface_count >= MAX_SERVER_INTERFACES {
        RPC_S_OUT_OF_RESOURCES
    } else {
        RPC_S_OK
    }
}

/// The server after interface slot `interface_count` is set to `x` and
/// counted.
pub open spec fn interface_added(a: &ServerState, b: &ServerState, x: RpcServerInterface) -> bool {
    &&& b.interface_count == a.interface_count + 1
    &&& b.interfaces@ == a.interfaces@.update(a.interface_count as int, x)
    &&& b.protseqs@ == a.protseqs@ && b.protseq_count == a.protseq_count
    &&& b.is_listening == a.is_listening && b.max_calls == a.max_calls && b.lpc_ports == a.lpc_ports
}

fn find_interface(state: &ServerState, if_spec: RPC_IF_HANDLE) -> (r: bool)
    requires
        state.wf(),
    ensures
        r == registered_spec(state.interfaces@, state.interface_count as int, if_spec),
{
    let mut i: usize = 0;
    while i < state.interface_count
        invariant
            state.wf(),
            i <= state.interface_count,
            forall|j: int| 0 <= j < i ==> #[trigger] state.interfaces@[j].if_spec != if_spec,
        decreases state.interface_count - i,
    {
        if state.interfaces[i].if_spec == if_spec {
            return true;
        }
        i = i + 1;
    }
    false
}

/// Register an interface with its manager type and entry points:
/// `RPC_S_INVALID_BINDING` for a null specification,
/// `RPC_S_ENTRY_ALREADY_EXISTS` when it is registered,
/// `RPC_S_OUT_OF_RESOURCES` when the table is full, nothing changed in
/// each case; else the next slot takes the specification, the manager
/// type (where given; else the slot keeps its own) and entry points, and
/// is marked registered (`RPC_S_OK`).
#[allow(non_snake_case)]
pub fn RpcServerRegisterIf(state: &mut ServerState, if_spec: RPC_IF_HANDLE, mgr_type_uuid: Option<&UUID>, mgr_epv: u64) -> (r: RPC_STATUS)
    requires
        old(state).wf(),
    ensures
        final(state).wf(),
        r == register_status(old(state), if_spec),
        r != RPC_S_OK ==> server_unchanged(old(state), final(state)),
        r == RPC_S_OK ==> ({
            let slot = old(state).interfaces@[old(state).interface_count as int];
            interface_added(old(state), final(state), RpcServerInterface {
                if_spec,
                mgr_type_uuid: match mgr_type_uuid { Some(u) => *u, None => slot.mgr_type_uuid },
                mgr_epv,
                registered: true,
                ..slot
            })
        }),
{
    if if_spec == 0 {
        return RPC_S_INVALID_BINDING;
    }
    if find_interface(state, if_spec) {
        return RPC_S_ENTRY_ALREADY_EXISTS;
    }
    if state.interface_count >= MAX_SERVER_INTERFACES {
        return RPC_S_OUT_OF_RESOURCES;
    }
    let idx = state.interface_count;
    let slot = state.interfaces[idx];
    let uuid = match mgr_type_uuid {
        Some(u) => *u,
        None => slot.mgr_type_uuid,
    };
    state.interfaces.set(idx, RpcServerInterface { if_spec, mgr_type_uuid: uuid, mgr_epv, registered: true, ..slot });
    state.interface_count = idx + 1;
    RPC_S_OK
}

/// Register an interface as `RpcServerRegisterIf` does, with its flags,
/// call limit, largest call size and security callback too.
#[allow(non_snake_case)]
pub fn RpcServerRegisterIf2(state: &mut ServerState, if_spec: RPC_IF_HANDLE, mgr_type_uuid: Option<&UUID>, mgr_epv: u64,
    flags: u32, max_calls: u32, max_rpc_size: u32, if_callback: u64) -> (r: RPC_STATUS)
    requires
        old(state).wf(),
    ensures
        final(state).wf(),
        r == register_status(old(state), if_spec),
        r != RPC_S_OK ==> server_unchanged(old(state), final(state)),
        r == RPC_S_OK ==> ({
            let slot = old(state).interfaces@[old(state).interface_count as int];
            interface_added(old(state), final(state), RpcServerInterface {
                if_spec,
                mgr_type_uuid: match mgr_type_uuid { Some(u) => *u, None => slot.mgr_type_uuid },
                mgr_epv,
                flags,
                max_calls,
                max_rpc_size,
                if_callback,
                registered: true,
            })
        }),
{
    if if_spec == 0 {
        return RPC_S_INVALID_BINDING;
    }
    if find_interface(state, if_spec) {
        return RPC_S_ENTRY_ALREADY_EXISTS;
    }
    if state.interface_count >= MAX_SERVER_INTERFACES {
        return RPC_S_OUT_OF_RESOURCES;
    }
    let idx = state.interface_count;
    let slot = state.interfaces[idx];
    let uuid = match mgr_type_uuid {
        Some(u) => *u,
        None => slot.mgr_type_uuid,
    };
    state.interfaces.set(idx, RpcServerInterface {
        if_spec, mgr_type_uuid: uuid, mgr_epv, flags, max_calls, max_rpc_size, if_callback, registered: true });
    state.interface_count = idx + 1;
    RPC_S_OK
}

/// Two UUIDs have equal fields.
pub open spec fn same_uuid(a: UUID, b: UUID) -> bool {
    a.data1 == b.data1 && a.data2 == b.data2 && a.data3 == b.data3 && a.data4@ == b.data4@
}

fn same_uuid_exec(a: &UUID, b: &UUID) -> (r: bool)
    ensures
        r == same_uuid(*a, *b),
{
    if a.data1 != b.data1 || a.data2 != b.data2 || a.data3 != b.data3 {
        return false;
    }
    let mut i: usize = 0;
    while i < 8
        invariant
            i <= 8,
            forall|j: int| 0 <= j < i ==> a.data4@[j] == b.data4@[j],
        decreases 8 - i,
    {
        if a.data4[i] != b.data4[i] {
            return false;
        }
        i = i + 1;
    }
    assert(a.data4@ =~= b.data4@);
    true
}

/// Slot `i` holds an interface that unregistering `if_spec` (with this
/// manager type, where given) takes away.
pub open spec fn unregister_match(x: RpcServerInterface, if_spec: u64, mgr: Option<UUID>) -> bool {
    x.if_spec == if_spec && match mgr {
        Some(u) => same_uuid(x.mgr_type_uuid, u),
        None => true,
    }
}

/// `i` is the first of the first `count` slots that matches.
pub open spec fn first_unregister(s: Seq<RpcServerInterface>, count: int, if_spec: u64, mgr: Option<UUID>, i: int) -> bool {
    &&& 0 <= i < count
    &&& unregister_match(s[i], if_spec, mgr)
    &&& forall|j: int| 0 <= j < i ==> !#[trigger] unregister_match(s[j], if_spec, mgr)
}

/// The interface table after slot `i` of the first `count` is taken
/// away: cleared, then the slots after it moved down one.
pub open spec fn interfaces_without(s: Seq<RpcServerInterface>, count: int, i: int) -> Seq<RpcServerInterface> {
    if i == count - 1 {
        s.update(i, RpcServerInterface { registered: false, if_spec: 0, ..s[i] })
    } else {
        s.take(i) + s.subrange(i + 1, count) + s.subrange(count - 1, s.len() as int)
    }
}

pub open spec fn deref_opt_uuid(u: Option<&UUID>) -> Option<UUID> {
    match u {
        Some(x) => Some(*x),
        None => None,
    }
}

/// Unregister the first interface with this specification (and this
/// manager type, where given): the table without it (`RPC_S_OK`); else
/// `RPC_S_INTERFACE_NOT_FOUND`, with nothing changed.
#[allow(non_snake_case)]
pub fn RpcServerUnregisterIf(state: &mut ServerState, if_spec: RPC_IF_HANDLE, mgr_type_uuid: Option<&UUID>,
    wait_for_calls_to_complete: u32) -> (r: RPC_STATUS)
    requires
        old(state).wf(),
    ensures
        final(state).wf(),
        (exists|i: int| first_unregister(old(state).interfaces@, old(state).interface_count as int, if_spec,
            deref_opt_uuid(mgr_type_uuid), i)) <==> r == RPC_S_OK,
        r != RPC_S_OK ==> r == RPC_S_INTERFACE_NOT_FOUND && server_unchanged(old(state), final(state)),
        forall|i: int| first_unregister(old(state).interfaces@, old(state).interface_count as int, if_spec,
            deref_opt_uuid(mgr_type_uuid), i) ==> {
            &&& final(state).interface_count == old(state).interface_count - 1
            &&& final(state).interfaces@ == interfaces_without(old(state).interfaces@, old(state).interface_count as int, i)
            &&& final(state).protseqs@ == old(state).protseqs@ && final(state).protseq_count == old(state).protseq_count
            &&& final(state).is_listening == old(state).is_listening && final(state).max_calls == old(state).max_calls
            &&& final(state).lpc_ports == old(state).lpc_ports
        },
{
    let ghost mgr = deref_opt_uuid(mgr_type_uuid);
    let ghost s0 = state.interfaces@;
    let count = state.interface_count;
    let mut i: usize = 0;
    while i < count
        invariant
            old(state).wf(),
            *state == *old(state),
            count == state.interface_count,
            s0 == state.interfaces@,
            mgr == deref_opt_uuid(mgr_type_uuid),
            i <= count,
            forall|j: int| 0 <= j < i ==> !#[trigger] unregister_match(s0[j], if_spec, mgr),
        decreases count - i,
    {
        let x = state.interfaces[i];
        let matched = x.if_spec == if_spec && match mgr_type_uuid {
            Some(u) => same_uuid_exec(&x.mgr_type_uuid, u),
            None => true,
        };
        if matched {
            state.interfaces.set(i, RpcServerInterface { registered: false, if_spec: 0, ..x });
            let mut j = i;
            while j < count - 1
                invariant
                    i <= j <= count - 1,
                    0 < count <= MAX_SERVER_INTERFACES,
                    count == old(state).interface_count,
                    state.interface_count == old(state).interface_count,
                    s0 == old(state).interfaces@,
                    state.protseqs@ == old(state).protseqs@,
                    state.protseq_count == old(state).protseq_count,
                    state.is_listening == old(state).is_listening,
                    state.max_calls == old(state).max_calls,
                    state.lpc_ports == old(state).lpc_ports,
                    state.interfaces@.len() == MAX_SERVER_INTERFACES,
                    forall|k: int| 0 <= k < MAX_SERVER_INTERFACES ==> #[trigger] state.interfaces@[k] ==
                        if i <= k < j { s0[k + 1] } else if k == j { 
                            if j == i { RpcServerInterface { registered: false, if_spec: 0, ..s0[i as int] } } else { s0[k] }
                        } else { s0[k] },
                decreases count - 1 - j,
            {
                let next = state.interfaces[j + 1];
                state.interfaces.set(j, next);
                j = j + 1;
            }
            state.interface_count = count - 1;
            proof {
                assert forall|k: int| first_unregister(s0, count as int, if_spec, mgr, k) implies k == i by {
                    if k < i {
                        assert(!unregister_match(s0[k], if_spec, mgr));
                    } else if i < k {
                        assert(!unregister_match(s0[i as int], if_spec, mgr));
                    }
                }
                assert(first_unregister(s0, count as int, if_spec, mgr, i as int));
                assert(state.interfaces@ =~= interfaces_without(s0, count as int, i as int));
            }
            return RPC_S_OK;
        }
        i = i + 1;
    }
    RPC_S_INTERFACE_NOT_FOUND
}

// =============================================================================
// Listening
// =============================================================================

/// Start listening: `RPC_S_ALREADY_LISTENING` when listening,
/// `RPC_S_NO_PROTSEQS_REGISTERED` without a protocol sequence,
/// `RPC_S_NOTHING_TO_EXPORT` without an interface, nothing changed in
/// each case; else listening, with the call limit set to `max_calls` when
/// that is not 0 (`RPC_S_OK`).
#[allow(non_snake_case)]
pub fn RpcServerListen(state: &mut ServerState, min_call_threads: u32, max_calls: u32, dont_wait: u32) -> (r: RPC_STATUS)
    requires
        old(state).wf(),
    ensures
        final(state).wf(),
        r == (if old(state).is_listening {
            RPC_S_ALREADY_LISTENING
        } else if old(state).protseq_count == 0 {
            RPC_S_NO_PROTSEQS_REGISTERED
        } else if old(state).interface_count == 0 {
            RPC_S_NOTHING_TO_EXPORT
        } else {
            RPC_S_OK
        }),
        r != RPC_S_OK ==> server_unchanged(old(state), final(state)),
        r == RPC_S_OK ==> final(state).is_listening
            && final(state).max_calls == (if max_calls > 0 { max_calls } else { old(state).max_calls })
            && final(state).protseqs@ == old(state).protseqs@ && final(state).protseq_count == old(state).protseq_count
            && final(state).interfaces@ == old(state).interfaces@ && final(state).interface_count == old(state).interface_count
            && final(state).lpc_ports == old(state).lpc_ports,
{
    if state.is_listening {
        return RPC_S_ALREADY_LISTENING;
    }
    if state.protseq_count == 0 {
        return RPC_S_NO_PROTSEQS_REGISTERED;
    }
    if state.interface_count == 0 {
        return RPC_S_NOTHING_TO_EXPORT;
    }
    if max_calls > 0 {
        state.max_calls = max_calls;
    }
    state.is_listening = true;
    RPC_S_OK
}

/// Stop listening: `RPC_S_NOT_LISTENING` when not listening, else no
/// longer listening (`RPC_S_OK`); nothing else changes.
#[allow(non_snake_case)]
pub fn RpcMgmtStopServerListening(state: &mut ServerState, binding: RPC_BINDING_HANDLE) -> (r: RPC_STATUS)
    requires
        old(state).wf(),
    ensures
        final(state).wf(),
        r == (if old(state).is_listening { RPC_S_OK } else { RPC_S_NOT_LISTENING }),
        !final(state).is_listening,
        final(state).protseqs@ == old(state).protseqs@ && final(state).protseq_count == old(state).protseq_count,
        final(state).interfaces@ == old(state).interfaces@ && final(state).interface_count == old(state).interface_count,
        final(state).max_calls == old(state).max_calls && final(state).lpc_ports == old(state).lpc_ports,
{
    if !state.is_listening {
        return RPC_S_NOT_LISTENING;
    }
    state.is_listening = false;
    RPC_S_OK
}

/// Wait for the server to stop listening: there is nothing to wait for.
/// Always `RPC_S_OK`.
#[allow(non_snake_case)]
pub fn RpcMgmtWaitServerListen(state: &ServerState) -> (r: RPC_STATUS)
    ensures
        r == RPC_S_OK,
{
    RPC_S_OK
}

/// Whether the server listens: `RPC_S_OK` or `RPC_S_NOT_LISTENING`.
#[allow(non_snake_case)]
pub fn RpcMgmtIsServerListening(state: &ServerState, binding: RPC_BINDING_HANDLE) -> (r: RPC_STATUS)
    ensures
        r == (if state.is_listening { RPC_S_OK } else { RPC_S_NOT_LISTENING }),
{
    if state.is_listening { RPC_S_OK } else { RPC_S_NOT_LISTENING }
}

/// The bindings a server offers: one per protocol sequence, a fresh
/// binding with that protocol sequence on its LPC port (`RPC_S_OK`);
/// `RPC_S_NO_BINDINGS`, with nothing written, when it uses none.
#[allow(non_snake_case)]
pub fn RpcServerInqBindings(state: &ServerState, binding_vector: &mut RPC_BINDING_VECTOR) -> (r: RPC_STATUS)
    requires
        state.wf(),
    ensures
        r == (if state.protseq_count == 0 { RPC_S_NO_BINDINGS } else { RPC_S_OK }),
        r != RPC_S_OK ==> final(binding_vector).count == old(binding_vector).count
            && final(binding_vector).binding_h@ == old(binding_vector).binding_h@,
        r == RPC_S_OK ==> {
            &&& final(binding_vector).count == state.protseq_count
            &&& final(binding_vector).binding_h@.len() == state.protseq_count
            &&& forall|i: int| 0 <= i < state.protseq_count ==> {
                let b = #[trigger] final(binding_vector).binding_h@[i];
                &&& b.protseq@ == field(wstr(state.protseqs@[i]@), 16)
                &&& b.lpc_port_index == state.lpc_ports@[i]
                &&& b.network_addr@ == Seq::new(128, |k: int| 0u16)
                &&& b.endpoint@ == Seq::new(64, |k: int| 0u16)
                &&& b.options@ == Seq::new(64, |k: int| 0u16)
                &&& b.ref_count == 1
            }
        },
{
    if state.protseq_count == 0 {
        return RPC_S_NO_BINDINGS;
    }
    let mut out: Vec<RpcBindingInternal> = Vec::new();
    let mut i: usize = 0;
    while i < state.protseq_count
        invariant
            state.wf(),
            i <= state.protseq_count,
            out@.len() == i,
            forall|k: int| 0 <= k < i ==> {
                let b = #[trigger] out@[k];
                &&& b.protseq@ == field(wstr(state.protseqs@[k]@), 16)
                &&& b.lpc_port_index == state.lpc_ports@[k]
                &&& b.network_addr@ == Seq::new(128, |k: int| 0u16)
                &&& b.endpoint@ == Seq::new(64, |k: int| 0u16)
                &&& b.options@ == Seq::new(64, |k: int| 0u16)
                &&& b.ref_count == 1
            },
        decreases state.protseq_count - i,
    {
        let mut ps: [u16; 16] = [0u16; 16];
        let stored = state.protseqs[i];
        let ghost st = stored@;
        proof {
            lemma_wlen(st);
        }
        let mut j: usize = 0;
        while j < 16
            invariant_except_break
                j <= 16,
                stored@ == st,
                crate::rpcrt4::wstr::is_wlen(st, wlen(st)),
                j <= wlen(st),
                ps@.len() == 16,
                forall|k: int| 0 <= k < 16 ==> #[trigger] ps@[k] == if k < j { st[k] } else { 0u16 },
            ensures
                ps@ == field(wstr(st), 16),
            decreases 16 - j,
        {
            ps[j] = stored[j];
            if stored[j] == 0 {
                proof {
                    assert(j == wlen(st)) by {
                        if (j as int) < wlen(st) {
                            assert(st[j as int] != 0u16);
                        }
                    }
                    assert(ps@ =~= field(wstr(st), 16));
                }
                break;
            }
            j = j + 1;
            proof {
                assert(j <= wlen(st)) by {
                    if wlen(st) < j {
                        assert(st[wlen(st)] == 0u16);
                    }
                }
                if j == 16 {
                    assert(ps@ =~= field(wstr(st), 16));
                }
            }
        }
        let mut b = RpcBindingInternal::new();
        b.protseq = ps;
        b.lpc_port_index = state.lpc_ports[i];
        out.push(b);
        i = i + 1;
    }
    binding_vector.count = state.protseq_count as u32;
    binding_vector.binding_h = out;
    RPC_S_OK
}

/// Register an interface's endpoints with the endpoint mapper:
/// `RPC_S_INVALID_BINDING` without an interface or bindings, else
/// `RPC_S_OK`.
#[allow(non_snake_case)]
pub fn RpcEpRegister(if_spec: RPC_IF_HANDLE, binding_vector: Option<&RPC_BINDING_VECTOR>, uuid_vector: u64,
    annotation: Option<&[u16]>) -> (r: RPC_STATUS)
    ensures
        r == (if if_spec == 0 || binding_vector is None { RPC_S_INVALID_BINDING } else { RPC_S_OK }),
{
    if if_spec == 0 || binding_vector.is_none() { RPC_S_INVALID_BINDING } else { RPC_S_OK }
}

/// Take an interface's endpoints out of the endpoint mapper:
/// `RPC_S_INVALID_BINDING` without an interface or bindings, else
/// `RPC_S_OK`.
#[allow(non_snake_case)]
pub fn RpcEpUnregister(if_spec: RPC_IF_HANDLE, binding_vector: Option<&RPC_BINDING_VECTOR>, uuid_vector: u64) -> (r: RPC_STATUS)
    ensures
        r == (if if_spec == 0 || binding_vector is None { RPC_S_INVALID_BINDING } else { RPC_S_OK }),
{
    if if_spec == 0 || binding_vector.is_none() { RPC_S_INVALID_BINDING } else { RPC_S_OK }
}

} // verus!
