use nt61::rpcrt4::types::{UUID, RPC_S_OK, RPC_S_INVALID_STRING_UUID};
use nt61::rpcrt4::uuid::{UuidGenerator, UuidCreate, UuidCreateNil, UuidToStringW, UuidFromStringW, UuidCompare,
    UuidEqual, UuidIsNil};

fn wide(s: &str) -> Vec<u16> {
    let mut v: Vec<u16> = s.encode_utf16().collect();
    v.push(0);
    v
}

fn narrow(v: &[u16]) -> String {
    let end = v.iter().position(|&c| c == 0).unwrap_or(v.len());
    String::from_utf16(&v[..end]).unwrap()
}

fn same(a: &UUID, b: &UUID) -> bool {
    a.data1 == b.data1 && a.data2 == b.data2 && a.data3 == b.data3 && a.data4 == b.data4
}

fn sample() -> UUID {
    UUID { data1: 0x12345678, data2: 0x9abc, data3: 0xdef0, data4: [1, 2, 3, 4, 5, 6, 7, 8] }
}

#[test]
fn created_uuid_is_version_4_variant_1() {
    let mut g = UuidGenerator::new();
    let mut u = UUID::nil();
    for _ in 0..5 {
        assert_eq!(UuidCreate(&mut g, &mut u), RPC_S_OK);
        assert_eq!(u.data3 & 0xF000, 0x4000);
        assert_eq!(u.data4[0] & 0xC0, 0x80);
    }
    assert_eq!(g.counter, 6);
}

#[test]
fn created_uuids_from_counter_one() {
    let mut g = UuidGenerator::new();
    let mut u = UUID::nil();
    UuidCreate(&mut g, &mut u);
    assert_eq!(u.data1, 0x9E3779B9);
    assert_eq!(u.data2, 0);
    assert_eq!(u.data3, 0x4001);
    assert_eq!(u.data4[0], 0x81);
    assert_eq!(u.data4[6], 0xA7);
}

#[test]
fn nil_uuid_is_all_zero() {
    let mut u = sample();
    assert_eq!(UuidCreateNil(&mut u), RPC_S_OK);
    assert!(same(&u, &UUID::nil()));
    let mut st = 7;
    assert_eq!(UuidIsNil(Some(&u), &mut st), 1);
    assert_eq!(st, RPC_S_OK);
    assert_eq!(UuidIsNil(None, &mut st), 1);
    assert_eq!(UuidIsNil(Some(&sample()), &mut st), 0);
}

#[test]
fn uuid_prints_in_lower_case_with_dashes() {
    let mut out = Vec::new();
    assert_eq!(UuidToStringW(&sample(), &mut out), RPC_S_OK);
    assert_eq!(out.len(), 37);
    assert_eq!(out[36], 0);
    assert_eq!(narrow(&out), "12345678-9abc-def0-0102-030405060708");
}

#[test]
fn uuid_print_then_read_gives_it_back() {
    let mut g = UuidGenerator::new();
    for _ in 0..20 {
        let mut u = UUID::nil();
        UuidCreate(&mut g, &mut u);
        let mut text = Vec::new();
        UuidToStringW(&u, &mut text);
        let mut back = UUID::nil();
        assert_eq!(UuidFromStringW(&text, &mut back), RPC_S_OK);
        assert!(same(&back, &u));
    }
}

#[test]
fn uuid_reads_upper_case_digits() {
    let mut u = UUID::nil();
    assert_eq!(UuidFromStringW(&wide("12345678-9ABC-DEF0-0102-030405060708"), &mut u), RPC_S_OK);
    assert!(same(&u, &sample()));
}

#[test]
fn malformed_uuid_text_is_refused_and_leaves_uuid() {
    let mut u = sample();
    assert_eq!(UuidFromStringW(&wide("12345678-9abc-def0-0102-03040506070"), &mut u), RPC_S_INVALID_STRING_UUID);
    assert!(same(&u, &sample()));
    assert_eq!(UuidFromStringW(&wide("12345678x9abc-def0-0102-030405060708"), &mut u), RPC_S_INVALID_STRING_UUID);
    assert_eq!(UuidFromStringW(&wide("1234567g-9abc-def0-0102-030405060708"), &mut u), RPC_S_INVALID_STRING_UUID);
    assert_eq!(UuidFromStringW(&wide(""), &mut u), RPC_S_INVALID_STRING_UUID);
    assert!(same(&u, &sample()));
}

#[test]
fn uuid_compare_orders_field_by_field() {
    let a = sample();
    let mut b = sample();
    let mut st = 5;
    assert_eq!(UuidCompare(Some(&a), Some(&b), &mut st), 0);
    assert_eq!(st, RPC_S_OK);
    b.data4[7] = 9;
    assert_eq!(UuidCompare(Some(&a), Some(&b), &mut st), -1);
    assert_eq!(UuidCompare(Some(&b), Some(&a), &mut st), 1);
    b.data1 = 0x12345677;
    assert_eq!(UuidCompare(Some(&a), Some(&b), &mut st), 1);
    assert_eq!(UuidCompare(None, Some(&a), &mut st), -1);
    assert_eq!(UuidCompare(Some(&a), None, &mut st), 1);
    assert_eq!(UuidCompare(None, None, &mut st), 0);
}

#[test]
fn uuid_equal_matches_compare() {
    let a = sample();
    let mut b = sample();
    let mut st = 0;
    assert_eq!(UuidEqual(Some(&a), Some(&b), &mut st), 1);
    b.data2 = 0;
    assert_eq!(UuidEqual(Some(&a), Some(&b), &mut st), 0);
    assert_eq!(UuidEqual(None, None, &mut st), 1);
    assert_eq!(UuidEqual(None, Some(&a), &mut st), 0);
}

#[test]
fn uuid_order_is_antisymmetric_and_transitive_on_samples() {
    let mut g = UuidGenerator::new();
    let mut us = Vec::new();
    for _ in 0..6 {
        let mut u = UUID::nil();
        UuidCreate(&mut g, &mut u);
        us.push(u);
    }
    let mut st = 0;
    for a in &us {
        for b in &us {
            let ab = UuidCompare(Some(a), Some(b), &mut st);
            let ba = UuidCompare(Some(b), Some(a), &mut st);
            assert_eq!(ab, -ba);
            assert_eq!(ab == 0, same(a, b));
            for c in &us {
                let bc = UuidCompare(Some(b), Some(c), &mut st);
                if ab < 0 && bc < 0 {
                    assert_eq!(UuidCompare(Some(a), Some(c), &mut st), -1);
                }
            }
        }
    }
}
