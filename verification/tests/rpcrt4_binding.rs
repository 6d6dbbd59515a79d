use nt61::rpcrt4::types::{UUID, RPC_BINDING_HANDLE, RPC_S_OK, RPC_S_INVALID_BINDING, RPC_S_INVALID_STRING_BINDING,
    RPC_S_STRING_TOO_LONG, RPC_S_OUT_OF_RESOURCES, MAX_BINDINGS};
use nt61::rpcrt4::binding::{BindingRegistry, RpcStringBindingComposeW, RpcBindingFromStringBindingW,
    RpcBindingToStringBindingW, RpcBindingFree, RpcBindingCopy, RpcBindingReset, RpcBindingSetObject,
    RpcBindingInqObject};

fn wide(s: &str) -> Vec<u16> {
    let mut v: Vec<u16> = s.encode_utf16().collect();
    v.push(0);
    v
}

fn narrow(v: &[u16]) -> String {
    let end = v.iter().position(|&c| c == 0).unwrap_or(v.len());
    String::from_utf16(&v[..end]).unwrap()
}

fn compose(uuid: Option<&str>, protseq: Option<&str>, addr: Option<&str>, ep: Option<&str>, opts: Option<&str>) -> String {
    let u = uuid.map(wide);
    let p = protseq.map(wide);
    let a = addr.map(wide);
    let e = ep.map(wide);
    let o = opts.map(wide);
    let mut out = Vec::new();
    let st = RpcStringBindingComposeW(u.as_deref(), p.as_deref(), a.as_deref(), e.as_deref(), o.as_deref(), &mut out);
    assert_eq!(st, RPC_S_OK);
    assert_eq!(*out.last().unwrap(), 0);
    narrow(&out)
}

#[test]
fn compose_puts_each_part_with_its_separator() {
    assert_eq!(compose(Some("u"), Some("ncalrpc"), Some("host"), Some("ep"), Some("opt")), "u@ncalrpc:host[ep,opt]");
    assert_eq!(compose(None, Some("ncalrpc"), None, Some("lsass"), None), "ncalrpc:[lsass]");
    assert_eq!(compose(None, Some("ncacn_np"), Some("srv"), None, None), "ncacn_np:srv");
    assert_eq!(compose(None, None, None, None, Some("o")), "[,o]");
    assert_eq!(compose(None, None, None, None, None), "");
}

#[test]
fn compose_then_parse_gives_the_parts_back() {
    let mut reg = BindingRegistry::new();
    let text = compose(None, Some("ncalrpc"), Some("host"), Some("ep"), Some("opt"));
    let mut h: RPC_BINDING_HANDLE = 0;
    assert_eq!(RpcBindingFromStringBindingW(&mut reg, &wide(&text), &mut h), RPC_S_OK);
    assert_eq!(h, 1);
    let b = reg.bindings[0].unwrap();
    assert_eq!(narrow(&b.protseq), "ncalrpc");
    assert_eq!(narrow(&b.network_addr), "host");
    assert_eq!(narrow(&b.endpoint), "ep");
    assert_eq!(narrow(&b.options), "opt");
    assert_eq!(b.ref_count, 1);
    let mut back = Vec::new();
    assert_eq!(RpcBindingToStringBindingW(&reg, h, &mut back), RPC_S_OK);
    assert_eq!(narrow(&back), text);
}

#[test]
fn parse_skips_the_object_uuid_and_brackets_are_optional() {
    let mut reg = BindingRegistry::new();
    let mut h: RPC_BINDING_HANDLE = 0;
    assert_eq!(RpcBindingFromStringBindingW(&mut reg, &wide("abc@ncacn_np:srv"), &mut h), RPC_S_OK);
    let b = reg.bindings[(h - 1) as usize].unwrap();
    assert_eq!(narrow(&b.protseq), "ncacn_np");
    assert_eq!(narrow(&b.network_addr), "srv");
    assert_eq!(narrow(&b.endpoint), "");
    let mut back = Vec::new();
    RpcBindingToStringBindingW(&reg, h, &mut back);
    assert_eq!(narrow(&back), "ncacn_np:srv[,]");
}

#[test]
fn parse_errors() {
    let mut reg = BindingRegistry::new();
    let mut h: RPC_BINDING_HANDLE = 77;
    assert_eq!(RpcBindingFromStringBindingW(&mut reg, &wide("no-colon"), &mut h), RPC_S_INVALID_STRING_BINDING);
    assert_eq!(RpcBindingFromStringBindingW(&mut reg, &wide("p:addr[unclosed"), &mut h), RPC_S_INVALID_STRING_BINDING);
    assert_eq!(RpcBindingFromStringBindingW(&mut reg, &wide("0123456789abcdef:x"), &mut h), RPC_S_STRING_TOO_LONG);
    assert_eq!(h, 77);
    assert_eq!(reg.count, 0);
}

#[test]
fn registry_fills_up() {
    let mut reg = BindingRegistry::new();
    let s = wide("ncalrpc:[x]");
    for i in 0..MAX_BINDINGS {
        let mut h = 0;
        assert_eq!(RpcBindingFromStringBindingW(&mut reg, &s, &mut h), RPC_S_OK);
        assert_eq!(h, (i + 1) as u64);
    }
    let mut h = 5;
    assert_eq!(RpcBindingFromStringBindingW(&mut reg, &s, &mut h), RPC_S_OUT_OF_RESOURCES);
    assert_eq!(h, 5);
    let mut h3: RPC_BINDING_HANDLE = 3;
    assert_eq!(RpcBindingFree(&mut reg, &mut h3), RPC_S_OK);
    assert_eq!(h3, 0);
    let mut again = 0;
    assert_eq!(RpcBindingFromStringBindingW(&mut reg, &s, &mut again), RPC_S_OK);
    assert_eq!(again, 3);
}

#[test]
fn free_copy_reset_on_bad_handles() {
    let mut reg = BindingRegistry::new();
    let mut h: RPC_BINDING_HANDLE = 0;
    assert_eq!(RpcBindingFree(&mut reg, &mut h), RPC_S_INVALID_BINDING);
    let mut h9: RPC_BINDING_HANDLE = 9;
    assert_eq!(RpcBindingFree(&mut reg, &mut h9), RPC_S_INVALID_BINDING);
    assert_eq!(h9, 9);
    let mut dest = 0;
    assert_eq!(RpcBindingCopy(&mut reg, 9, &mut dest), RPC_S_INVALID_BINDING);
    assert_eq!(RpcBindingReset(&mut reg, 0), RPC_S_INVALID_BINDING);
    let mut out = wide("keep");
    assert_eq!(RpcBindingToStringBindingW(&reg, 200, &mut out), RPC_S_INVALID_BINDING);
    assert_eq!(narrow(&out), "keep");
}

#[test]
fn copy_shares_and_reset_forgets_the_port() {
    let mut reg = BindingRegistry::new();
    let mut h = 0;
    RpcBindingFromStringBindingW(&mut reg, &wide("ncalrpc:host[ep]"), &mut h);
    let mut dest = 0;
    assert_eq!(RpcBindingCopy(&mut reg, h, &mut dest), RPC_S_OK);
    assert_eq!(dest, h);
    assert_eq!(reg.bindings[0].unwrap().ref_count, 2);
    let mut b = reg.bindings[0].unwrap();
    b.lpc_port_index = 12;
    reg.bindings[0] = Some(b);
    assert_eq!(RpcBindingReset(&mut reg, h), RPC_S_OK);
    assert_eq!(reg.bindings[0].unwrap().lpc_port_index, 0);
    assert_eq!(narrow(&reg.bindings[0].unwrap().endpoint), "ep");
    assert_eq!(narrow(&reg.bindings[0].unwrap().network_addr), "host");
}

#[test]
fn object_uuid_set_then_inquired() {
    let mut reg = BindingRegistry::new();
    let mut h = 0;
    RpcBindingFromStringBindingW(&mut reg, &wide("ncalrpc:[ep]"), &mut h);
    let u = UUID { data1: 1, data2: 2, data3: 3, data4: [4; 8] };
    assert_eq!(RpcBindingSetObject(&mut reg, h, Some(&u)), RPC_S_OK);
    let mut got = UUID::nil();
    assert_eq!(RpcBindingInqObject(&reg, h, &mut got), RPC_S_OK);
    assert_eq!((got.data1, got.data2, got.data3, got.data4), (1, 2, 3, [4; 8]));
    assert_eq!(RpcBindingSetObject(&mut reg, h, None), RPC_S_OK);
    RpcBindingInqObject(&reg, h, &mut got);
    assert_eq!((got.data1, got.data2, got.data3, got.data4), (0, 0, 0, [0; 8]));
    assert_eq!(RpcBindingInqObject(&reg, 0, &mut got), RPC_S_INVALID_BINDING);
}
