//! The client side: the table of connections a client keeps per binding,
//! the decisions of connecting a binding over LPC, the framing of a call,
//! and the small management entry points.
//!
//! Connecting goes in two steps because the LPC port lookup and connect
//! happen outside: `establish_connection` decides and names the port to
//! look up, and `complete_connection` records what came back.

use vstd::prelude::*;
use crate::rpcrt4::types::{RPC_STATUS, RPC_BINDING_HANDLE, MAX_BINDINGS, RPC_S_OK, RPC_S_INVALID_BINDING,
    RPC_S_OUT_OF_RESOURCES, RPC_S_PROTSEQ_NOT_SUPPORTED, RPC_S_SERVER_UNAVAILABLE, RPC_S_SERVER_TOO_BUSY,
    RPC_S_STRING_TOO_LONG, RPC_S_INVALID_STRING_BINDING, RPC_S_CANNOT_SUPPORT, RPC_C_AUTHN_LEVEL_CONNECT,
    RpcBindingInternal, PROTSEQ_NCALRPC, PROTSEQ_NCACN_NP, PROTSEQ_NCACN_IP_TCP, protseq_ncalrpc_spec,
    protseq_ncacn_np_spec, protseq_ncacn_ip_tcp_spec};
use crate::rpcrt4::wstr::{wstr, wstrcmp};
use crate::rpcrt4::binding::BindingRegistry;

verus! {

/// The status of an asynchronous call that has not finished.
pub const RPC_S_ASYNC_CALL_PENDING: RPC_STATUS = 0x3E5;

/// A client's connection for one binding: the LPC ports on both ends and
/// whether it is up.
#[derive(Clone, Copy)]
pub struct ClientConnection {
    pub binding: RPC_BINDING_HANDLE,
    pub lpc_client_port: u32,
    pub lpc_server_port: u32,
    pub connected: bool,
}

impl ClientConnection {
    /// An unused connection.
    pub fn new() -> (r: Self)
        ensures
            r.binding == 0 && r.lpc_client_port == 0 && r.lpc_server_port == 0 && !r.connected,
    {
        ClientConnection { binding: 0, lpc_client_port: 0, lpc_server_port: 0, connected: false }
    }
}

/// A client's connections: the first `connection_count` slots are in use.
pub struct ClientState {
    pub connections: Vec<ClientConnection>,
    pub connection_count: usize,
}

/// The first slot before `count` whose connection is for `binding`.
pub open spec fn first_connection(s: Seq<ClientConnection>, count: int, binding: u64, i: int) -> bool {
    &&& 0 <= i < count
    &&& s[i].binding == binding
    &&& forall|j: int| 0 <= j < i ==> #[trigger] s[j].binding != binding
}

/// No slot before `count` holds a connection for `binding`.
pub open spec fn no_connection(s: Seq<ClientConnection>, count: int, binding: u64) -> bool {
    forall|j: int| 0 <= j < count ==> #[trigger] s[j].binding != binding
}

impl ClientState {
    /// The table has its slots, and the count stays within them.
    pub open spec fn wf(&self) -> bool {
        &&& self.connections@.len() == MAX_BINDINGS
        &&& self.connection_count <= MAX_BINDINGS
    }

    /// An empty table.
    pub fn new() -> (r: Self)
        ensures
            r.wf(),
            r.connection_count == 0,
    {
        let mut connections: Vec<ClientConnection> = Vec::new();
        let mut i: usize = 0;
        while i < MAX_BINDINGS
            invariant
                i <= MAX_BINDINGS,
                connections@.len() == i,
            decreases MAX_BINDINGS - i,
        {
            connections.push(ClientConnection::new());
            i = i + 1;
        }
        ClientState { connections, connection_count: 0 }
    }

    /// The slot of the first connection for `binding`.
    pub fn find_connection(&self, binding: RPC_BINDING_HANDLE) -> (r: Option<usize>)
        requires
            self.wf(),
        ensures
            r matches Some(i) ==> first_connection(self.connections@, self.connection_count as int, binding, i as int),
            r is None ==> no_connection(self.connections@, self.connection_count as int, binding),
    {
        let mut i: usize = 0;
        while i < self.connection_count
            invariant
                self.wf(),
                i <= self.connection_count,
                no_connection(self.connections@, i as int, binding),
            decreases self.connection_count - i,
        {
            if self.connections[i].binding == binding {
                return Some(i);
            }
            i = i + 1;
        }
        None
    }

    /// Start a connection for `binding` in the next slot, not connected;
    /// the slot, or `None` with nothing changed when the table is full.
    pub fn add_connection(&mut self, binding: RPC_BINDING_HANDLE) -> (r: Option<usize>)
        requires
            old(self).wf(),
        ensures
            final(self).wf(),
            r is None <==> old(self).connection_count >= MAX_BINDINGS,
            r is None ==> final(self).connections@ == old(self).connections@
                && final(self).connection_count == old(self).connection_count,
            r matches Some(i) ==> i == old(self).connection_count
                && final(self).connection_count == old(self).connection_count + 1
                && final(self).connections@ == old(self).connections@.update(i as int, ClientConnection {
                    binding, connected: false, ..old(self).connections@[i as int] }),
    {
        if self.connection_count >= MAX_BINDINGS {
            return None;
        }
        let idx = self.connection_count;
        let c = self.connections[idx];
        self.connections.set(idx, ClientConnection { binding, connected: false, ..c });
        self.connection_count = self.connection_count + 1;
        Some(idx)
    }

    /// Drop the first connection for `binding`, moving the ones after it
    /// down a slot; nothing changes when there is none.
    pub fn remove_connection(&mut self, binding: RPC_BINDING_HANDLE)
        requires
            old(self).wf(),
        ensures
            final(self).wf(),
            no_connection(old(self).connections@, old(self).connection_count as int, binding) ==>
                final(self).connections@ == old(self).connections@ && final(self).connection_count == old(self).connection_count,
            forall|i: int| first_connection(old(self).connections@, old(self).connection_count as int, binding, i) ==>
                final(self).connection_count == old(self).connection_count - 1
                && final(self).connections@ == old(self).connections@.take(i)
                    + old(self).connections@.subrange(i + 1, old(self).connection_count as int)
                    + old(self).connections@.subrange(old(self).connection_count - 1, MAX_BINDINGS as int),
    {
        match self.find_connection(binding) {
            None => {},
            Some(idx) => {
                let ghost s0 = self.connections@;
                let count = self.connection_count;
                let mut i = idx;
                while i < count - 1
                    invariant
                        idx <= i <= count - 1,
                        count == old(self).connection_count,
                        0 < count <= MAX_BINDINGS,
                        self.connections@.len() == MAX_BINDINGS,
                        s0 == old(self).connections@,
                        forall|j: int| 0 <= j < MAX_BINDINGS ==> #[trigger] self.connections@[j] ==
                            if idx <= j < i { s0[j + 1] } else { s0[j] },
                    decreases count - 1 - i,
                {
                    let next = self.connections[i + 1];
                    self.connections.set(i, next);
                    i = i + 1;
                }
                self.connection_count = count - 1;
                proof {
                    assert forall|k: int| first_connection(s0, count as int, binding, k) implies k == idx by {
                        if k < idx {
                            assert(s0[k].binding != binding);
                        } else if idx < k {
                            assert(s0[idx as int].binding != binding);
                        }
                    }
                    assert(self.connections@ =~= s0.take(idx as int) + s0.subrange(idx + 1, count as int)
                        + s0.subrange(count - 1, MAX_BINDINGS as int));
                }
            },
        }
    }
}

// =============================================================================
// Connecting a binding
// =============================================================================

/// `\RPC Control\`, the directory of LPC ports.
pub open spec fn rpc_control_prefix() -> Seq<u16> {
    seq![0x5Cu16, 0x52, 0x50, 0x43, 0x20, 0x43, 0x6F, 0x6E, 0x74, 0x72, 0x6F, 0x6C, 0x5C]
}

/// The name of the LPC port a binding's endpoint names.
pub open spec fn port_name_of(b: RpcBindingInternal) -> Seq<u16> {
    rpc_control_prefix() + wstr(b.endpoint@)
}

/// What connecting a binding comes to: a status now, or the LPC port to
/// look up and connect to, for the connection in slot `conn`.
pub enum ConnectStep {
    Done(RPC_STATUS),
    Lookup { conn: usize, port_name: Vec<u16> },
}

/// What the LPC side answered: no such port, the port refused, or the
/// client and server ports of the new connection.
pub enum PortOutcome {
    NotFound,
    Busy,
    Connected { client_port: u32, server_port: u32 },
}

fn port_name_for(b: &RpcBindingInternal) -> (r: Vec<u16>)
    ensures
        r@ == port_name_of(*b),
{
    let prefix: [u16; 13] = [0x5C, 0x52, 0x50, 0x43, 0x20, 0x43, 0x6F, 0x6E, 0x74, 0x72, 0x6F, 0x6C, 0x5C];
    let mut out: Vec<u16> = Vec::new();
    let mut i: usize = 0;
    while i < 13
        invariant
            i <= 13,
            prefix@ == rpc_control_prefix(),
            out@ == rpc_control_prefix().take(i as int),
        decreases 13 - i,
    {
        proof {
            assert(rpc_control_prefix().take(i + 1) =~= rpc_control_prefix().take(i as int).push(prefix@[i as int]));
        }
        out.push(prefix[i]);
        i = i + 1;
    }
    let n = crate::rpcrt4::wstr::wstrlen(b.endpoint.as_slice());
    proof {
        crate::rpcrt4::wstr::lemma_wlen(b.endpoint@);
    }
    let mut j: usize = 0;
    while j < n
        invariant
            j <= n,
            n <= 64,
            n == crate::rpcrt4::wstr::wlen(b.endpoint@),
            out@ == rpc_control_prefix() + b.endpoint@.take(j as int),
        decreases n - j,
    {
        proof {
            assert(b.endpoint@.take(j + 1) =~= b.endpoint@.take(j as int).push(b.endpoint@[j as int]));
        }
        out.push(b.endpoint[j]);
        j = j + 1;
    }
    proof {
        assert(rpc_control_prefix().take(13) =~= rpc_control_prefix());
    }
    out
}

/// Whether `p` holds `ncalrpc`.
fn is_ncalrpc(p: &[u16]) -> (r: bool)
    ensures
        r == (wstr(p@) == wstr(protseq_ncalrpc_spec())),
{
    let ncalrpc = PROTSEQ_NCALRPC();
    wstrcmp(p, ncalrpc.as_slice())
}

/// The binding's connection is in the table and up.
pub open spec fn connection_up(s: Seq<ClientConnection>, count: int, binding: u64) -> bool {
    exists|i: int| first_connection(s, count, binding, i) && s[i].connected
}

/// The table has no connection for the binding and no room for one.
pub open spec fn no_room_for(s: Seq<ClientConnection>, count: int, binding: u64) -> bool {
    no_connection(s, count, binding) && count >= MAX_BINDINGS
}

/// The table is unchanged.
pub open spec fn same_table(a: &ClientState, b: &ClientState) -> bool {
    a.connections@ == b.connections@ && a.connection_count == b.connection_count
}

/// The table after the binding's connection is found, or started in the
/// next slot, not connected.
pub open spec fn found_or_started(a: &ClientState, b: &ClientState, binding: u64) -> bool {
    if no_connection(a.connections@, a.connection_count as int, binding) {
        b.connection_count == a.connection_count + 1
        && b.connections@ == a.connections@.update(a.connection_count as int,
            ClientConnection { binding, connected: false, ..a.connections@[a.connection_count as int] })
    } else {
        same_table(a, b)
    }
}

/// What a binding decides about connecting: a status, or `None` to go on
/// to the port lookup.
pub open spec fn binding_decision(b: RpcBindingInternal) -> Option<RPC_STATUS> {
    if wstr(b.protseq@) != wstr(protseq_ncalrpc_spec()) {
        Some(RPC_S_PROTSEQ_NOT_SUPPORTED)
    } else if wstr(b.endpoint@).len() == 0 {
        Some(RPC_S_INVALID_BINDING)
    } else {
        None
    }
}

/// The step taken for binding `b` once its connection is in slot of the
/// table `st`.
pub open spec fn step_for(r: ConnectStep, b: RpcBindingInternal, st: &ClientState, binding: u64) -> bool {
    match binding_decision(b) {
        Some(status) => r == ConnectStep::Done(status),
        None => r matches ConnectStep::Lookup { conn, port_name }
            && first_connection(st.connections@, st.connection_count as int, binding, conn as int)
            && port_name@ == port_name_of(b),
    }
}

/// Decide how to connect a binding. A null handle, or one that names no
/// live binding, gives `RPC_S_INVALID_BINDING`. A binding already
/// connected gives `RPC_S_OK`. Otherwise its connection is found or
/// started (`RPC_S_OUT_OF_RESOURCES` when the table is full); a binding
/// whose protocol sequence is not `ncalrpc` gives
/// `RPC_S_PROTSEQ_NOT_SUPPORTED`, one without an endpoint
/// `RPC_S_INVALID_BINDING`; else the step is to look up the port
/// `\RPC Control\<endpoint>`.
pub fn establish_connection(state: &mut ClientState, registry: &BindingRegistry, binding: RPC_BINDING_HANDLE) -> (r: ConnectStep)
    requires
        old(state).wf(),
        registry.wf(),
    ensures
        final(state).wf(),
        (binding == 0 || registry.binding_at(binding) is None) ==> r == ConnectStep::Done(RPC_S_INVALID_BINDING)
            && same_table(old(state), final(state)),
        binding != 0 && registry.binding_at(binding) is Some
            && connection_up(old(state).connections@, old(state).connection_count as int, binding)
            ==> r == ConnectStep::Done(RPC_S_OK) && same_table(old(state), final(state)),
        binding != 0 && registry.binding_at(binding) is Some
            && !connection_up(old(state).connections@, old(state).connection_count as int, binding)
            && no_room_for(old(state).connections@, old(state).connection_count as int, binding)
            ==> r == ConnectStep::Done(RPC_S_OUT_OF_RESOURCES) && same_table(old(state), final(state)),
        binding != 0 && registry.binding_at(binding) is Some
            && !connection_up(old(state).connections@, old(state).connection_count as int, binding)
            && !no_room_for(old(state).connections@, old(state).connection_count as int, binding)
            ==> found_or_started(old(state), final(state), binding)
                && step_for(r, registry.binding_at(binding).unwrap(), final(state), binding),
{
    if binding == 0 {
        return ConnectStep::Done(RPC_S_INVALID_BINDING);
    }
    let b = match registry.get(binding) {
        None => return ConnectStep::Done(RPC_S_INVALID_BINDING),
        Some(b) => b,
    };
    let conn_idx: usize;
    match state.find_connection(binding) {
        Some(idx) => {
            if state.connections[idx].connected {
                return ConnectStep::Done(RPC_S_OK);
            }
            conn_idx = idx;
            proof {
                assert forall|i: int| first_connection(state.connections@, state.connection_count as int, binding, i)
                    implies i == idx by {
                    if i < idx {
                        assert(state.connections@[i].binding != binding);
                    } else if idx < i {
                        assert(state.connections@[idx as int].binding != binding);
                    }
                }
            }
        },
        None => {
            match state.add_connection(binding) {
                None => return ConnectStep::Done(RPC_S_OUT_OF_RESOURCES),
                Some(idx) => {
                    conn_idx = idx;
                    proof {
                        assert forall|i: int| first_connection(old(state).connections@, old(state).connection_count as int, binding, i)
                            implies false by {
                            assert(old(state).connections@[i].binding != binding);
                        }
                    }
                },
            }
        },
    }
    if !is_ncalrpc(b.protseq.as_slice()) {
        return ConnectStep::Done(RPC_S_PROTSEQ_NOT_SUPPORTED);
    }
    let endpoint_len = crate::rpcrt4::wstr::wstrlen(b.endpoint.as_slice());
    proof {
        crate::rpcrt4::wstr::lemma_wlen(b.endpoint@);
    }
    if endpoint_len == 0 {
        return ConnectStep::Done(RPC_S_INVALID_BINDING);
    }
    let port_name = port_name_for(&b);
    ConnectStep::Lookup { conn: conn_idx, port_name }
}

/// Record what the LPC side answered for the connection in slot `conn`
/// of `binding`: `RPC_S_SERVER_UNAVAILABLE` when no port had the name,
/// `RPC_S_SERVER_TOO_BUSY` when it refused, nothing changed either way;
/// else the connection is up with its two ports and the binding is on
/// the client port (`RPC_S_OK`).
pub fn complete_connection(state: &mut ClientState, registry: &mut BindingRegistry, binding: RPC_BINDING_HANDLE,
    conn: usize, outcome: PortOutcome) -> (r: RPC_STATUS)
    requires
        old(state).wf(),
        old(registry).wf(),
        conn < MAX_BINDINGS,
        old(registry).binding_at(binding) is Some,
    ensures
        final(state).wf(),
        final(registry).wf(),
        final(state).connection_count == old(state).connection_count,
        final(registry).count == old(registry).count,
        match outcome {
            PortOutcome::NotFound => r == RPC_S_SERVER_UNAVAILABLE && final(state).connections@ == old(state).connections@
                && final(registry).bindings@ == old(registry).bindings@,
            PortOutcome::Busy => r == RPC_S_SERVER_TOO_BUSY && final(state).connections@ == old(state).connections@
                && final(registry).bindings@ == old(registry).bindings@,
            PortOutcome::Connected { client_port, server_port } => {
                &&& r == RPC_S_OK
                &&& final(state).connections@ == old(state).connections@.update(conn as int, ClientConnection {
                    lpc_client_port: client_port, lpc_server_port: server_port, connected: true,
                    ..old(state).connections@[conn as int] })
                &&& final(registry).bindings@ == old(registry).bindings@.update(binding - 1, Some(RpcBindingInternal {
                    lpc_port_index: client_port, ..old(registry).binding_at(binding).unwrap() }))
            },
        },
{
    match outcome {
        PortOutcome::NotFound => RPC_S_SERVER_UNAVAILABLE,
        PortOutcome::Busy => RPC_S_SERVER_TOO_BUSY,
        PortOutcome::Connected { client_port, server_port } => {
            let c = state.connections[conn];
            state.connections.set(conn, ClientConnection {
                lpc_client_port: client_port, lpc_server_port: server_port, connected: true, ..c });
            let b = registry.get(binding).unwrap();
            registry.put(binding, RpcBindingInternal { lpc_port_index: client_port, ..b });
            RPC_S_OK
        },
    }
}

// =============================================================================
// Calls
// =============================================================================

/// The message a call sends: the procedure number, least significant
/// byte first, then the input.
pub open spec fn call_message(opnum: u32, input: Seq<u8>) -> Seq<u8> {
    seq![(opnum & 0xFFu32) as u8, ((opnum >> 8u32) & 0xFFu32) as u8, ((opnum >> 16u32) & 0xFFu32) as u8,
        ((opnum >> 24u32) & 0xFFu32) as u8] + input
}

/// Frame a call of procedure `opnum` with this input:
/// `RPC_S_STRING_TOO_LONG` for input over 252 bytes (what a message has
/// room for beside the procedure number).
pub fn build_call_message(opnum: u32, input: &[u8]) -> (r: Result<Vec<u8>, RPC_STATUS>)
    ensures
        input@.len() > 252 ==> r == Err::<Vec<u8>, RPC_STATUS>(RPC_S_STRING_TOO_LONG),
        input@.len() <= 252 ==> (r matches Ok(m) && m@ == call_message(opnum, input@)),
{
    if input.len() > 252 {
        return Err(RPC_S_STRING_TOO_LONG);
    }
    let mut m: Vec<u8> = Vec::new();
    m.push((opnum & 0xFF) as u8);
    m.push(((opnum >> 8) & 0xFF) as u8);
    m.push(((opnum >> 16) & 0xFF) as u8);
    m.push(((opnum >> 24) & 0xFF) as u8);
    let mut i: usize = 0;
    while i < input.len()
        invariant
            i <= input@.len(),
            m@ == call_message(opnum, input@.take(i as int)),
        decreases input@.len() - i,
    {
        proof {
            assert(call_message(opnum, input@.take(i + 1)) =~= call_message(opnum, input@.take(i as int)).push(input@[i as int]));
        }
        m.push(input[i]);
        i = i + 1;
    }
    proof {
        assert(input@.take(input@.len() as int) =~= input@);
    }
    Ok(m)
}

/// Copy a reply into the caller's buffer, as much of it as the caller
/// said fits, and say how much was copied.
pub fn take_reply(reply: &[u8], out_buffer: &mut [u8], out_size: &mut u32)
    requires
        old(out_buffer)@.len() >= *old(out_size),
    ensures
        *final(out_size) == (if reply@.len() < *old(out_size) { reply@.len() as int } else { *old(out_size) as int }),
        final(out_buffer)@.len() == old(out_buffer)@.len(),
        forall|i: int| 0 <= i < old(out_buffer)@.len() ==> #[trigger] final(out_buffer)@[i] ==
            if i < *final(out_size) { reply@[i] } else { old(out_buffer)@[i] },
{
    let n: u32 = if (reply.len() as u64) < (*out_size as u64) { reply.len() as u32 } else { *out_size };
    let mut i: usize = 0;
    while i < n as usize
        invariant
            i <= n,
            n <= reply@.len(),
            n <= out_buffer@.len(),
            out_buffer@.len() == old(out_buffer)@.len(),
            forall|j: int| 0 <= j < old(out_buffer)@.len() ==> #[trigger] out_buffer@[j] ==
                if j < i { reply@[j] } else { old(out_buffer)@[j] },
        decreases n - i,
    {
        out_buffer[i] = reply[i];
        i = i + 1;
    }
    *out_size = n;
}

/// The LPC port a call on a connected `binding` goes out on: the binding's
/// port; `RPC_S_INVALID_BINDING` for the null handle, a handle that names
/// no binding, or a binding without a port.
pub fn call_port(registry: &BindingRegistry, binding: RPC_BINDING_HANDLE) -> (r: Result<u32, RPC_STATUS>)
    requires
        registry.wf(),
    ensures
        r == match registry.binding_at(binding) {
            Some(b) => if binding != 0 && b.lpc_port_index != 0 {
                Ok::<u32, RPC_STATUS>(b.lpc_port_index)
            } else {
                Err::<u32, RPC_STATUS>(RPC_S_INVALID_BINDING)
            },
            None => Err::<u32, RPC_STATUS>(RPC_S_INVALID_BINDING),
        },
{
    if binding == 0 {
        return Err(RPC_S_INVALID_BINDING);
    }
    match registry.get(binding) {
        Some(b) => if b.lpc_port_index != 0 { Ok(b.lpc_port_index) } else { Err(RPC_S_INVALID_BINDING) },
        None => Err(RPC_S_INVALID_BINDING),
    }
}

/// Hand a reply to the caller: as much of it as both `out_size` and the
/// buffer allow is copied to the front of the buffer, and `out_size`
/// becomes what was copied.
pub fn deliver_reply(reply: &[u8], out_buffer: &mut [u8], out_size: &mut u32)
    ensures
        ({
            let room: int = if old(out_buffer)@.len() < *old(out_size) { old(out_buffer)@.len() as int } else { *old(out_size) as int };
            &&& *final(out_size) == (if reply@.len() < room { reply@.len() as int } else { room })
            &&& final(out_buffer)@.len() == old(out_buffer)@.len()
            &&& forall|i: int| 0 <= i < old(out_buffer)@.len() ==> #[trigger] final(out_buffer)@[i] ==
                if i < *final(out_size) { reply@[i] } else { old(out_buffer)@[i] }
        }),
{
    let mut size: u32 = *out_size;
    if (out_buffer.len() as u64) < (size as u64) {
        size = out_buffer.len() as u32;
    }
    take_reply(reply, out_buffer, &mut size);
    *out_size = size;
}

// =============================================================================
// Management
// =============================================================================

/// Set the stack size of server threads: there are none to size.
/// Always `RPC_S_OK`.
#[allow(non_snake_case)]
pub fn RpcMgmtSetServerStackSize(thread_stack_size: u32) -> (r: RPC_STATUS)
    ensures
        r == RPC_S_OK,
{
    RPC_S_OK
}

/// Let idle connections be cleaned up. Always `RPC_S_OK`.
#[allow(non_snake_case)]
pub fn RpcMgmtEnableIdleCleanup() -> (r: RPC_STATUS)
    ensures
        r == RPC_S_OK,
{
    RPC_S_OK
}

/// Set a binding's communication timeout: `RPC_S_INVALID_BINDING` for a
/// null handle, else `RPC_S_OK`.
#[allow(non_snake_case)]
pub fn RpcMgmtSetComTimeout(binding: RPC_BINDING_HANDLE, timeout: u32) -> (r: RPC_STATUS)
    ensures
        r == (if binding == 0 { RPC_S_INVALID_BINDING } else { RPC_S_OK }),
{
    if binding == 0 { RPC_S_INVALID_BINDING } else { RPC_S_OK }
}

/// The server's principal name: the empty string (`RPC_S_OK`);
/// `RPC_S_INVALID_BINDING`, with nothing written, for a null handle.
#[allow(non_snake_case)]
pub fn RpcMgmtInqServerPrincName(binding: RPC_BINDING_HANDLE, authn_svc: u32, server_princ_name: &mut Vec<u16>) -> (r: RPC_STATUS)
    ensures
        r == (if binding == 0 { RPC_S_INVALID_BINDING } else { RPC_S_OK }),
        binding != 0 ==> final(server_princ_name)@ == seq![0u16],
        binding == 0 ==> *final(server_princ_name) == *old(server_princ_name),
{
    if binding == 0 {
        return RPC_S_INVALID_BINDING;
    }
    let mut v: Vec<u16> = Vec::new();
    v.push(0);
    *server_princ_name = v;
    RPC_S_OK
}

/// Cancel an asynchronous call: `RPC_S_INVALID_BINDING` for a null
/// handle, else `RPC_S_CANNOT_SUPPORT`.
#[allow(non_snake_case)]
pub fn RpcAsyncCancelCall(async_handle: u64, do_not_wait: i32) -> (r: RPC_STATUS)
    ensures
        r == (if async_handle == 0 { RPC_S_INVALID_BINDING } else { RPC_S_CANNOT_SUPPORT }),
{
    if async_handle == 0 { RPC_S_INVALID_BINDING } else { RPC_S_CANNOT_SUPPORT }
}

/// The status of an asynchronous call: `RPC_S_INVALID_BINDING` for a null
/// handle, else pending.
#[allow(non_snake_case)]
pub fn RpcAsyncGetCallStatus(async_handle: u64) -> (r: RPC_STATUS)
    ensures
        r == (if async_handle == 0 { RPC_S_INVALID_BINDING } else { RPC_S_ASYNC_CALL_PENDING }),
{
    if async_handle == 0 { RPC_S_INVALID_BINDING } else { RPC_S_ASYNC_CALL_PENDING }
}

/// Whether a protocol sequence is one the runtime knows (`ncalrpc`,
/// `ncacn_np`, `ncacn_ip_tcp`): `RPC_S_OK`, or
/// `RPC_S_PROTSEQ_NOT_SUPPORTED`; `RPC_S_INVALID_STRING_BINDING` when none
/// is given.
#[allow(non_snake_case)]
pub fn RpcNetworkIsProtseqValidW(protseq: Option<&[u16]>) -> (r: RPC_STATUS)
    ensures
        r == match protseq {
            None => RPC_S_INVALID_STRING_BINDING,
            Some(p) => if wstr(p@) == wstr(protseq_ncalrpc_spec()) || wstr(p@) == wstr(protseq_ncacn_np_spec())
                || wstr(p@) == wstr(protseq_ncacn_ip_tcp_spec()) {
                RPC_S_OK
            } else {
                RPC_S_PROTSEQ_NOT_SUPPORTED
            },
        },
{
    match protseq {
        None => RPC_S_INVALID_STRING_BINDING,
        Some(p) => {
            let a = PROTSEQ_NCALRPC();
            let b = PROTSEQ_NCACN_NP();
            let c = PROTSEQ_NCACN_IP_TCP();
            if wstrcmp(p, a.as_slice()) {
                return RPC_S_OK;
            }
            if wstrcmp(p, b.as_slice()) {
                return RPC_S_OK;
            }
            if wstrcmp(p, c.as_slice()) {
                return RPC_S_OK;
            }
            RPC_S_PROTSEQ_NOT_SUPPORTED
        },
    }
}

/// The default protection level: connect-level (`RPC_S_OK`).
#[allow(non_snake_case)]
pub fn RpcMgmtInqDefaultProtectLevel(authn_svc: u32, protect_level: &mut u32) -> (r: RPC_STATUS)
    ensures
        r == RPC_S_OK,
        *final(protect_level) == RPC_C_AUTHN_LEVEL_CONNECT,
{
    *protect_level = RPC_C_AUTHN_LEVEL_CONNECT;
    RPC_S_OK
}

} // verus!
