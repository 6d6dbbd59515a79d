use nt61::rpcrt4::types::{UUID, RPC_S_OK, RPC_S_INVALID_BINDING, RPC_S_PROTSEQ_NOT_SUPPORTED, RPC_S_SERVER_UNAVAILABLE,
    RPC_S_SERVER_TOO_BUSY, RPC_S_STRING_TOO_LONG, RPC_S_INVALID_STRING_BINDING, RPC_S_DUPLICATE_ENDPOINT,
    RPC_S_OUT_OF_RESOURCES, RPC_S_ALREADY_LISTENING, RPC_S_NO_PROTSEQS_REGISTERED, RPC_S_NOTHING_TO_EXPORT,
    RPC_S_NOT_LISTENING, RPC_S_ENTRY_ALREADY_EXISTS, RPC_S_INTERFACE_NOT_FOUND, RPC_S_NO_BINDINGS,
    RPC_C_AUTHN_LEVEL_CONNECT, RPC_BINDING_VECTOR, MAX_PROTSEQS};
use nt61::rpcrt4::binding::{BindingRegistry, RpcBindingFromStringBindingW};
use nt61::rpcrt4::client::{ClientState, ConnectStep, PortOutcome, establish_connection, complete_connection,
    build_call_message, take_reply, RpcNetworkIsProtseqValidW, RpcMgmtInqDefaultProtectLevel, RpcAsyncGetCallStatus,
    RPC_S_ASYNC_CALL_PENDING};
use nt61::rpcrt4::server::{ServerState, RpcServerUseProtseqW, RpcServerUseProtseqEpW, RpcServerUseAllProtseqs,
    RpcServerRegisterIf, RpcServerUnregisterIf, RpcServerListen, RpcMgmtStopServerListening, RpcMgmtIsServerListening,
    RpcServerInqBindings, set_last_protseq_port};

fn wide(s: &str) -> Vec<u16> {
    let mut v: Vec<u16> = s.encode_utf16().collect();
    v.push(0);
    v
}

fn narrow(v: &[u16]) -> String {
    let end = v.iter().position(|&c| c == 0).unwrap_or(v.len());
    String::from_utf16(&v[..end]).unwrap()
}

fn bind(reg: &mut BindingRegistry, s: &str) -> u64 {
    let mut h = 0;
    assert_eq!(RpcBindingFromStringBindingW(reg, &wide(s), &mut h), RPC_S_OK);
    h
}

#[test]
fn connecting_an_ncalrpc_binding_looks_up_its_port() {
    let mut reg = BindingRegistry::new();
    let mut st = ClientState::new();
    let h = bind(&mut reg, "ncalrpc:[lsass]");
    let step = establish_connection(&mut st, &reg, h);
    let conn = match step {
        ConnectStep::Lookup { conn, port_name } => {
            assert_eq!(narrow(&port_name), "\\RPC Control\\lsass");
            conn
        },
        ConnectStep::Done(s) => panic!("unexpected status {}", s),
    };
    assert_eq!(conn, 0);
    assert_eq!(st.connection_count, 1);
    assert_eq!(complete_connection(&mut st, &mut reg, h, conn, PortOutcome::Connected { client_port: 7, server_port: 9 }), RPC_S_OK);
    assert!(st.connections[0].connected);
    assert_eq!(st.connections[0].lpc_server_port, 9);
    assert_eq!(reg.bindings[0].unwrap().lpc_port_index, 7);
    assert!(matches!(establish_connection(&mut st, &reg, h), ConnectStep::Done(RPC_S_OK)));
    assert_eq!(st.connection_count, 1);
}

#[test]
fn connecting_refusals() {
    let mut reg = BindingRegistry::new();
    let mut st = ClientState::new();
    assert!(matches!(establish_connection(&mut st, &reg, 0), ConnectStep::Done(RPC_S_INVALID_BINDING)));
    assert!(matches!(establish_connection(&mut st, &reg, 5), ConnectStep::Done(RPC_S_INVALID_BINDING)));
    let tcp = bind(&mut reg, "ncacn_ip_tcp:host[80]");
    assert!(matches!(establish_connection(&mut st, &reg, tcp), ConnectStep::Done(RPC_S_PROTSEQ_NOT_SUPPORTED)));
    let no_ep = bind(&mut reg, "ncalrpc:host");
    assert!(matches!(establish_connection(&mut st, &reg, no_ep), ConnectStep::Done(RPC_S_INVALID_BINDING)));
    let h = bind(&mut reg, "ncalrpc:[x]");
    let conn = match establish_connection(&mut st, &reg, h) {
        ConnectStep::Lookup { conn, .. } => conn,
        ConnectStep::Done(_) => panic!(),
    };
    assert_eq!(complete_connection(&mut st, &mut reg, h, conn, PortOutcome::NotFound), RPC_S_SERVER_UNAVAILABLE);
    assert_eq!(complete_connection(&mut st, &mut reg, h, conn, PortOutcome::Busy), RPC_S_SERVER_TOO_BUSY);
    assert!(!st.connections[conn].connected);
}

#[test]
fn call_message_frames_the_procedure_number() {
    let m = build_call_message(0x01020304, &[9, 8]).unwrap();
    assert_eq!(m, vec![4, 3, 2, 1, 9, 8]);
    assert_eq!(build_call_message(1, &[0u8; 253]), Err(RPC_S_STRING_TOO_LONG));
    assert_eq!(build_call_message(1, &[0u8; 252]).unwrap().len(), 256);
}

#[test]
fn reply_is_cut_to_the_buffer() {
    let mut buf = [0u8; 4];
    let mut size = 3u32;
    take_reply(&[1, 2, 3, 4, 5], &mut buf, &mut size);
    assert_eq!(size, 3);
    assert_eq!(buf, [1, 2, 3, 0]);
    let mut size2 = 4u32;
    take_reply(&[7], &mut buf, &mut size2);
    assert_eq!(size2, 1);
    assert_eq!(buf, [7, 2, 3, 0]);
}

#[test]
fn protseq_validity() {
    assert_eq!(RpcNetworkIsProtseqValidW(Some(&wide("ncalrpc"))), RPC_S_OK);
    assert_eq!(RpcNetworkIsProtseqValidW(Some(&wide("ncacn_np"))), RPC_S_OK);
    assert_eq!(RpcNetworkIsProtseqValidW(Some(&wide("ncacn_ip_tcp"))), RPC_S_OK);
    assert_eq!(RpcNetworkIsProtseqValidW(Some(&wide("ncadg_ip_udp"))), RPC_S_PROTSEQ_NOT_SUPPORTED);
    assert_eq!(RpcNetworkIsProtseqValidW(None), RPC_S_INVALID_STRING_BINDING);
    let mut level = 0;
    assert_eq!(RpcMgmtInqDefaultProtectLevel(0, &mut level), RPC_S_OK);
    assert_eq!(level, RPC_C_AUTHN_LEVEL_CONNECT);
    assert_eq!(RpcAsyncGetCallStatus(0), RPC_S_INVALID_BINDING);
    assert_eq!(RpcAsyncGetCallStatus(4), RPC_S_ASYNC_CALL_PENDING);
}

#[test]
fn server_protseqs_once_each_up_to_the_limit() {
    let mut s = ServerState::new();
    assert_eq!(RpcServerUseProtseqW(&mut s, Some(&wide("ncalrpc")), 10, 0), RPC_S_OK);
    assert_eq!(s.max_calls, 10);
    assert_eq!(RpcServerUseProtseqW(&mut s, Some(&wide("ncalrpc")), 20, 0), RPC_S_DUPLICATE_ENDPOINT);
    assert_eq!(s.max_calls, 10);
    assert_eq!(RpcServerUseProtseqW(&mut s, None, 20, 0), RPC_S_INVALID_STRING_BINDING);
    for i in 1..MAX_PROTSEQS {
        assert_eq!(RpcServerUseProtseqW(&mut s, Some(&wide(&format!("p{}", i))), 5, 0), RPC_S_OK);
    }
    assert_eq!(s.protseq_count, MAX_PROTSEQS);
    assert_eq!(RpcServerUseProtseqW(&mut s, Some(&wide("more")), 5, 0), RPC_S_OUT_OF_RESOURCES);
}

#[test]
fn server_endpoint_gives_the_port_name() {
    let mut s = ServerState::new();
    let (st, name) = RpcServerUseProtseqEpW(&mut s, Some(&wide("ncalrpc")), 1, Some(&wide("ep1")), 0);
    assert_eq!(st, RPC_S_OK);
    assert_eq!(narrow(&name.unwrap()), "\\RPC Control\\ep1");
    set_last_protseq_port(&mut s, 42);
    assert_eq!(s.lpc_ports[0], 42);
    let (st2, name2) = RpcServerUseProtseqEpW(&mut s, Some(&wide("ncacn_np")), 1, Some(&wide("pipe")), 0);
    assert_eq!(st2, RPC_S_OK);
    assert!(name2.is_none());
}

#[test]
fn use_all_protseqs_takes_both() {
    let mut s = ServerState::new();
    assert_eq!(RpcServerUseAllProtseqs(&mut s, 3, 0), RPC_S_OK);
    assert_eq!(s.protseq_count, 2);
    assert_eq!(narrow(&s.protseqs[0]), "ncalrpc");
    assert_eq!(narrow(&s.protseqs[1]), "ncacn_np");
    assert_eq!(RpcServerUseAllProtseqs(&mut s, 3, 0), RPC_S_OK);
    assert_eq!(s.protseq_count, 2);
}

#[test]
fn listen_needs_protseq_and_interface() {
    let mut s = ServerState::new();
    assert_eq!(RpcServerListen(&mut s, 1, 0, 0), RPC_S_NO_PROTSEQS_REGISTERED);
    RpcServerUseProtseqW(&mut s, Some(&wide("ncalrpc")), 4, 0);
    assert_eq!(RpcServerListen(&mut s, 1, 0, 0), RPC_S_NOTHING_TO_EXPORT);
    assert_eq!(RpcServerRegisterIf(&mut s, 0x1000, None, 0), RPC_S_OK);
    assert_eq!(RpcServerRegisterIf(&mut s, 0x1000, None, 0), RPC_S_ENTRY_ALREADY_EXISTS);
    assert_eq!(RpcServerRegisterIf(&mut s, 0, None, 0), RPC_S_INVALID_BINDING);
    assert_eq!(RpcMgmtIsServerListening(&s, 0), RPC_S_NOT_LISTENING);
    assert_eq!(RpcServerListen(&mut s, 1, 0, 0), RPC_S_OK);
    assert_eq!(s.max_calls, 4);
    assert_eq!(RpcServerListen(&mut s, 1, 9, 0), RPC_S_ALREADY_LISTENING);
    assert_eq!(RpcMgmtIsServerListening(&s, 0), RPC_S_OK);
    assert_eq!(RpcMgmtStopServerListening(&mut s, 0), RPC_S_OK);
    assert_eq!(RpcMgmtStopServerListening(&mut s, 0), RPC_S_NOT_LISTENING);
}

#[test]
fn unregister_moves_later_interfaces_down() {
    let mut s = ServerState::new();
    let t = UUID { data1: 5, data2: 0, data3: 0, data4: [0; 8] };
    RpcServerRegisterIf(&mut s, 1, None, 0);
    RpcServerRegisterIf(&mut s, 2, Some(&t), 0);
    RpcServerRegisterIf(&mut s, 3, None, 0);
    assert_eq!(RpcServerUnregisterIf(&mut s, 2, Some(&UUID::nil()), 0), RPC_S_INTERFACE_NOT_FOUND);
    assert_eq!(RpcServerUnregisterIf(&mut s, 2, Some(&t), 0), RPC_S_OK);
    assert_eq!(s.interface_count, 2);
    assert_eq!(s.interfaces[0].if_spec, 1);
    assert_eq!(s.interfaces[1].if_spec, 3);
    assert_eq!(RpcServerUnregisterIf(&mut s, 9, None, 0), RPC_S_INTERFACE_NOT_FOUND);
}

#[test]
fn inquire_bindings_one_per_protseq() {
    let mut s = ServerState::new();
    let mut v = RPC_BINDING_VECTOR { count: 0, binding_h: Vec::new() };
    assert_eq!(RpcServerInqBindings(&s, &mut v), RPC_S_NO_BINDINGS);
    RpcServerUseProtseqW(&mut s, Some(&wide("ncalrpc")), 1, 0);
    set_last_protseq_port(&mut s, 11);
    RpcServerUseProtseqW(&mut s, Some(&wide("ncacn_np")), 1, 0);
    assert_eq!(RpcServerInqBindings(&s, &mut v), RPC_S_OK);
    assert_eq!(v.count, 2);
    assert_eq!(narrow(&v.binding_h[0].protseq), "ncalrpc");
    assert_eq!(v.binding_h[0].lpc_port_index, 11);
    assert_eq!(narrow(&v.binding_h[1].protseq), "ncacn_np");
}
