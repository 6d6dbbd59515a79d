//! UUIDs: making them from a counter, printing them as
//! `xxxxxxxx-xxxx-xxxx-xxxx-xxxxxxxxxxxx`, reading them back, and
//! ordering them.

use vstd::prelude::*;
use crate::rpcrt4::types::{UUID, RPC_STATUS, RPC_S_OK, RPC_S_INVALID_STRING_UUID};
use crate::rpcrt4::wstr::at;

verus! {

// =============================================================================
// Making UUIDs
// =============================================================================

/// The counter UUIDs are made from; it starts at 1.
pub struct UuidGenerator {
    pub counter: u64,
}

impl UuidGenerator {
    /// A generator whose counter is 1.
    pub fn new() -> (r: Self)
        ensures
            r.counter == 1,
    {
        UuidGenerator { counter: 1 }
    }
}

/// The last eight bytes of the UUID made from counter value `c`.
pub open spec fn counter_data4(c: u64) -> Seq<u8> {
    seq![
        0x80u8 | ((c as u8) & 0x3Fu8),
        ((c >> 8u64) as u8).wrapping_mul(0xB9u8),
        ((c >> 16u64) as u8).wrapping_mul(0x79u8),
        ((c >> 24u64) as u8).wrapping_mul(0x37u8),
        ((c >> 32u64) as u8).wrapping_mul(0x9Eu8),
        ((c >> 40u64) as u8).wrapping_mul(0x3Bu8),
        (c as u8).wrapping_mul(0xA7u8),
        ((c >> 8u64) as u8).wrapping_mul(0x53u8),
    ]
}

/// `u` is the UUID made from counter value `c`: its fields scramble the
/// counter, with the version nibble 4 and the variant bits `10`.
pub open spec fn made_from_counter(u: UUID, c: u64) -> bool {
    &&& u.data1 == (c as u32).wrapping_mul(0x9E3779B9u32)
    &&& u.data2 == ((c >> 32u64) as u16).wrapping_mul(0x9E37u16)
    &&& u.data3 == (0x4000u16 | ((c as u16) & 0x0FFFu16))
    &&& u.data4@ == counter_data4(c)
}

/// Make a UUID from the generator's counter, and move the counter on by
/// one (wrapping). Always `RPC_S_OK`.
#[allow(non_snake_case)]
pub fn UuidCreate(generator: &mut UuidGenerator, uuid: &mut UUID) -> (r: RPC_STATUS)
    ensures
        r == RPC_S_OK,
        made_from_counter(*final(uuid), old(generator).counter),
        final(generator).counter == old(generator).counter.wrapping_add(1),
{
    let counter = generator.counter;
    generator.counter = counter.wrapping_add(1);
    uuid.data1 = (counter as u32).wrapping_mul(0x9E3779B9);
    uuid.data2 = ((counter >> 32) as u16).wrapping_mul(0x9E37);
    uuid.data3 = 0x4000 | ((counter as u16) & 0x0FFF);
    uuid.data4 = [
        0x80 | ((counter as u8) & 0x3F),
        ((counter >> 8) as u8).wrapping_mul(0xB9),
        ((counter >> 16) as u8).wrapping_mul(0x79),
        ((counter >> 24) as u8).wrapping_mul(0x37),
        ((counter >> 32) as u8).wrapping_mul(0x9E),
        ((counter >> 40) as u8).wrapping_mul(0x3B),
        (counter as u8).wrapping_mul(0xA7),
        ((counter >> 8) as u8).wrapping_mul(0x53),
    ];
    proof {
        assert(uuid.data4@ =~= counter_data4(counter));
    }
    RPC_S_OK
}

/// Every UUID made from a counter is a version-4 UUID of the standard
/// variant: the top nibble of its third field is 4, and the top two bits
/// of its eighth-to-last byte are `10`.
pub proof fn lemma_made_uuid_is_version_4(u: UUID, c: u64)
    requires
        made_from_counter(u, c),
    ensures
        u.data3 & 0xF000u16 == 0x4000u16,
        u.data4@[0] & 0xC0u8 == 0x80u8,
{
    let d3 = u.data3;
    let b0 = u.data4@[0];
    let c16 = c as u16;
    let c8 = c as u8;
    assert(d3 == (0x4000u16 | (c16 & 0x0FFFu16)));
    assert(b0 == (0x80u8 | (c8 & 0x3Fu8)));
    assert((0x4000u16 | (c16 & 0x0FFFu16)) & 0xF000u16 == 0x4000u16) by (bit_vector);
    assert((0x80u8 | (c8 & 0x3Fu8)) & 0xC0u8 == 0x80u8) by (bit_vector);
}

/// Make the nil UUID. Always `RPC_S_OK`.
#[allow(non_snake_case)]
pub fn UuidCreateNil(uuid: &mut UUID) -> (r: RPC_STATUS)
    ensures
        r == RPC_S_OK,
        is_nil(*final(uuid)),
{
    *uuid = UUID::nil();
    RPC_S_OK
}

// =============================================================================
// Printing and reading
// =============================================================================

/// The sixteen bytes of a UUID in the order they are printed: the first
/// three fields most significant byte first, then the last eight bytes.
pub open spec fn uuid_bytes(u: UUID) -> Seq<u8> {
    seq![
        (u.data1 >> 24u32) as u8, (u.data1 >> 16u32) as u8, (u.data1 >> 8u32) as u8, u.data1 as u8,
        (u.data2 >> 8u16) as u8, u.data2 as u8,
        (u.data3 >> 8u16) as u8, u.data3 as u8,
    ] + u.data4@
}

/// The lower-case hexadecimal digit for `n` (below 16).
pub open spec fn hex_char(n: u8) -> u16 {
    if n < 10 { (0x30 + n) as u16 } else { (0x57 + n) as u16 }
}

/// Whether position `p` of a printed UUID holds a dash.
pub open spec fn dash_at(p: int) -> bool {
    p == 8 || p == 13 || p == 18 || p == 23
}

/// Which hexadecimal digit (counted without the dashes) position `p`
/// holds.
pub open spec fn digit_index(p: int) -> int {
    if p < 8 { p } else if p < 13 { p - 1 } else if p < 18 { p - 2 } else if p < 23 { p - 3 } else { p - 4 }
}

/// The high (`high`) or low nibble of `b`.
pub open spec fn nibble(b: u8, high: bool) -> u8 {
    if high { b >> 4u8 } else { b & 0x0Fu8 }
}

/// The 36 characters a UUID with these bytes prints as.
pub open spec fn uuid_text(bytes: Seq<u8>) -> Seq<u16> {
    Seq::new(36, |p: int| if dash_at(p) {
        0x2Du16
    } else {
        hex_char(nibble(bytes[digit_index(p) / 2], digit_index(p) % 2 == 0))
    })
}

/// How many characters of the printed UUID come before byte `k`'s two
/// digits, the dash before it excluded.
pub open spec fn printed_before(k: int) -> int {
    2 * k + if k <= 4 { 0int } else if k <= 6 { 1int } else if k <= 8 { 2int } else if k <= 10 { 3int } else { 4int }
}

fn hex_digit(n: u8) -> (r: u16)
    requires
        n < 16,
    ensures
        r == hex_char(n),
{
    if n < 10 { (0x30 + n) as u16 } else { (0x57 + n) as u16 }
}

fn bytes_of(uuid: &UUID) -> (r: [u8; 16])
    ensures
        r@ == uuid_bytes(*uuid),
{
    let d = uuid.data4;
    let r: [u8; 16] = [
        (uuid.data1 >> 24) as u8, (uuid.data1 >> 16) as u8, (uuid.data1 >> 8) as u8, uuid.data1 as u8,
        (uuid.data2 >> 8) as u8, uuid.data2 as u8,
        (uuid.data3 >> 8) as u8, uuid.data3 as u8,
        d[0], d[1], d[2], d[3], d[4], d[5], d[6], d[7],
    ];
    assert(r@ =~= uuid_bytes(*uuid));
    r
}

/// Print a UUID: 36 lower-case characters and a terminator. Always
/// `RPC_S_OK`.
#[allow(non_snake_case)]
pub fn UuidToStringW(uuid: &UUID, string_uuid: &mut Vec<u16>) -> (r: RPC_STATUS)
    ensures
        r == RPC_S_OK,
        final(string_uuid)@ == uuid_text(uuid_bytes(*uuid)).push(0u16),
{
    let bytes = bytes_of(uuid);
    let ghost text = uuid_text(bytes@);
    let mut out: Vec<u16> = Vec::new();
    let mut k: usize = 0;
    while k < 16
        invariant
            k <= 16,
            bytes@ == uuid_bytes(*uuid),
            text == uuid_text(bytes@),
            out@.len() == printed_before(k as int),
            forall|p: int| 0 <= p < out@.len() ==> #[trigger] out@[p] == text[p],
        decreases 16 - k,
    {
        if k == 4 || k == 6 || k == 8 || k == 10 {
            out.push(0x2D);
        }
        let b = bytes[k];
        assert(b >> 4u8 < 16) by (bit_vector);
        assert(b & 0x0Fu8 < 16) by (bit_vector);
        out.push(hex_digit(b >> 4));
        out.push(hex_digit(b & 0x0F));
        k = k + 1;
    }
    out.push(0);
    proof {
        assert(out@ =~= text.push(0u16));
    }
    *string_uuid = out;
    RPC_S_OK
}

/// The value of hexadecimal digit `c`, of either case.
pub open spec fn hex_value(c: u8) -> Option<u8> {
    if 0x30 <= c <= 0x39 {
        Some((c - 0x30) as u8)
    } else if 0x61 <= c <= 0x66 {
        Some((c - 0x61 + 10) as u8)
    } else if 0x41 <= c <= 0x46 {
        Some((c - 0x41 + 10) as u8)
    } else {
        None
    }
}

/// The low byte of a unit: a digit is read from it alone.
pub open spec fn low_byte(c: u16) -> u8 {
    (c % 256) as u8
}

/// The value of the hexadecimal digit in unit `c`, read from its low
/// byte.
fn parse_hex_digit(c: u16) -> (r: Option<u8>)
    ensures
        r == hex_value(low_byte(c)),
{
    let b = (c % 256) as u8;
    if b >= 0x30 && b <= 0x39 {
        Some(b - 0x30)
    } else if b >= 0x61 && b <= 0x66 {
        Some(b - 0x61 + 10)
    } else if b >= 0x41 && b <= 0x46 {
        Some(b - 0x41 + 10)
    } else {
        None
    }
}

/// `s` starts with a UUID in text: the dashes where they belong and a
/// hexadecimal digit everywhere else among its first 36 units (what
/// follows them is not looked at).
pub open spec fn valid_uuid_text(s: Seq<u16>) -> bool {
    forall|p: int| 0 <= p < 36 ==> if dash_at(p) {
        #[trigger] at(s, p) == 0x2Du16
    } else {
        hex_value(low_byte(at(s, p))) is Some
    }
}

/// Where byte `k`'s first digit stands in a printed UUID.
pub open spec fn digit_pos(k: int) -> int {
    2 * k + if k < 4 { 0int } else if k < 6 { 1int } else if k < 8 { 2int } else if k < 10 { 3int } else { 4int }
}

/// The value of the digit at `p`.
pub open spec fn digit_at(s: Seq<u16>, p: int) -> u8 {
    hex_value(low_byte(at(s, p))).unwrap()
}

/// Byte `k` of the UUID in text `s`.
pub open spec fn parsed_byte(s: Seq<u16>, k: int) -> u8 {
    (digit_at(s, digit_pos(k)) << 4u8) | digit_at(s, digit_pos(k) + 1)
}

/// The UUID whose printed bytes are `b`.
pub open spec fn uuid_of_bytes(u: UUID, b: Seq<u8>) -> bool {
    &&& u.data1 == ((((b[0] as u32) << 8u32 | b[1] as u32) << 8u32 | b[2] as u32) << 8u32 | b[3] as u32)
    &&& u.data2 == ((b[4] as u16) << 8u16 | b[5] as u16)
    &&& u.data3 == ((b[6] as u16) << 8u16 | b[7] as u16)
    &&& u.data4@ == b.subrange(8, 16)
}

/// The sixteen bytes the UUID in text `s` stands for.
pub open spec fn parsed_bytes(s: Seq<u16>) -> Seq<u8> {
    Seq::new(16, |k: int| parsed_byte(s, k))
}

/// Read a UUID from its text: `RPC_S_OK`, with the UUID written, when `s`
/// starts with a UUID in text; else `RPC_S_INVALID_STRING_UUID`, with the
/// UUID left as it was.
#[allow(non_snake_case)]
pub fn UuidFromStringW(string_uuid: &[u16], uuid: &mut UUID) -> (r: RPC_STATUS)
    ensures
        r == (if valid_uuid_text(string_uuid@) { RPC_S_OK } else { RPC_S_INVALID_STRING_UUID }),
        valid_uuid_text(string_uuid@) ==> uuid_of_bytes(*final(uuid), parsed_bytes(string_uuid@)),
        !valid_uuid_text(string_uuid@) ==> *final(uuid) == *old(uuid),
{
    let ghost s = string_uuid@;
    let mut bytes: [u8; 16] = [0u8; 16];
    let mut pos: usize = 0;
    let mut k: usize = 0;
    while k < 16
        invariant
            k <= 16,
            s == string_uuid@,
            pos == printed_before(k as int),
            forall|p: int| 0 <= p < pos ==> if dash_at(p) {
                #[trigger] at(s, p) == 0x2Du16
            } else {
                hex_value(low_byte(at(s, p))) is Some
            },
            forall|j: int| 0 <= j < k ==> #[trigger] bytes@[j] == parsed_byte(s, j),
        decreases 16 - k,
    {
        if k == 4 || k == 6 || k == 8 || k == 10 {
            let c: u16 = if pos < string_uuid.len() { string_uuid[pos] } else { 0 };
            if c != 0x2D {
                proof {
                    assert(dash_at(pos as int));
                    assert(!(at(s, pos as int) == 0x2Du16));
                }
                return RPC_S_INVALID_STRING_UUID;
            }
            pos = pos + 1;
        }
        assert(pos == digit_pos(k as int));
        assert(!dash_at(pos as int) && !dash_at(pos + 1));
        let c1: u16 = if pos < string_uuid.len() { string_uuid[pos] } else { 0 };
        let high = match parse_hex_digit(c1) {
            Some(v) => v,
            None => {
                proof {
                    assert(hex_value(low_byte(at(s, pos as int))) is None);
                }
                return RPC_S_INVALID_STRING_UUID;
            },
        };
        let c2: u16 = if pos + 1 < string_uuid.len() { string_uuid[pos + 1] } else { 0 };
        let low = match parse_hex_digit(c2) {
            Some(v) => v,
            None => {
                proof {
                    assert(hex_value(low_byte(at(s, pos + 1))) is None);
                }
                return RPC_S_INVALID_STRING_UUID;
            },
        };
        bytes[k] = (high << 4) | low;
        pos = pos + 2;
        k = k + 1;
    }
    proof {
        assert forall|p: int| 0 <= p < 36 implies (if dash_at(p) {
            #[trigger] at(s, p) == 0x2Du16
        } else {
            hex_value(low_byte(at(s, p))) is Some
        }) by {
            assert(p < pos);
        }
        assert(bytes@ =~= parsed_bytes(s));
    }
    uuid.data1 = ((((bytes[0] as u32) << 8 | bytes[1] as u32) << 8 | bytes[2] as u32) << 8) | bytes[3] as u32;
    uuid.data2 = ((bytes[4] as u16) << 8) | bytes[5] as u16;
    uuid.data3 = ((bytes[6] as u16) << 8) | bytes[7] as u16;
    uuid.data4 = [bytes[8], bytes[9], bytes[10], bytes[11], bytes[12], bytes[13], bytes[14], bytes[15]];
    proof {
        assert(uuid.data4@ =~= parsed_bytes(s).subrange(8, 16));
    }
    RPC_S_OK
}

/// Reading a printed UUID back gives the UUID: the text is valid and its
/// bytes are the UUID's.
pub proof fn lemma_uuid_text_roundtrip(u: UUID)
    ensures
        valid_uuid_text(uuid_text(uuid_bytes(u)).push(0u16)),
        parsed_bytes(uuid_text(uuid_bytes(u)).push(0u16)) == uuid_bytes(u),
{
    let b = uuid_bytes(u);
    let s = uuid_text(b).push(0u16);
    assert forall|n: u8| n < 16 implies #[trigger] hex_value(low_byte(hex_char(n))) == Some(n) by {
        assert(hex_char(n) < 256);
    }
    assert forall|p: int| 0 <= p < 36 implies (if dash_at(p) {
        #[trigger] at(s, p) == 0x2Du16
    } else {
        hex_value(low_byte(at(s, p))) is Some
    }) by {
        if !dash_at(p) {
            let x = b[digit_index(p) / 2];
            assert(x >> 4u8 < 16) by (bit_vector);
            assert(x & 0x0Fu8 < 16) by (bit_vector);
            assert(at(s, p) == hex_char(nibble(x, digit_index(p) % 2 == 0)));
        }
    }
    assert forall|k: int| 0 <= k < 16 implies #[trigger] parsed_byte(s, k) == b[k] by {
        let x = b[k];
        assert(x >> 4u8 < 16) by (bit_vector);
        assert(x & 0x0Fu8 < 16) by (bit_vector);
        assert(digit_index(digit_pos(k)) == 2 * k);
        assert(digit_index(digit_pos(k) + 1) == 2 * k + 1);
        assert(!dash_at(digit_pos(k)) && !dash_at(digit_pos(k) + 1));
        assert(at(s, digit_pos(k)) == hex_char(x >> 4u8));
        assert(at(s, digit_pos(k) + 1) == hex_char(x & 0x0Fu8));
        assert(digit_at(s, digit_pos(k)) == x >> 4u8);
        assert(digit_at(s, digit_pos(k) + 1) == x & 0x0Fu8);
        assert(((x >> 4u8) << 4u8) | (x & 0x0Fu8) == x) by (bit_vector);
    }
    assert(parsed_bytes(s) =~= b);
}

/// The UUID with a UUID's own printed bytes is that UUID.
pub proof fn lemma_uuid_bytes_roundtrip(u: UUID, v: UUID)
    requires
        uuid_of_bytes(v, uuid_bytes(u)),
    ensures
        v.data1 == u.data1 && v.data2 == u.data2 && v.data3 == u.data3 && v.data4@ == u.data4@,
{
    let d1 = u.data1;
    let d2 = u.data2;
    let d3 = u.data3;
    assert(((((((d1 >> 24u32) as u8) as u32) << 8u32 | (((d1 >> 16u32) as u8) as u32)) << 8u32
        | (((d1 >> 8u32) as u8) as u32)) << 8u32 | ((d1 as u8) as u32)) == d1) by (bit_vector);
    assert(((((d2 >> 8u16) as u8) as u16) << 8u16 | ((d2 as u8) as u16)) == d2) by (bit_vector);
    assert(((((d3 >> 8u16) as u8) as u16) << 8u16 | ((d3 as u8) as u16)) == d3) by (bit_vector);
    assert(uuid_bytes(u).subrange(8, 16) =~= u.data4@);
}

/// Printing a UUID and reading the text back gives the same UUID.
pub proof fn lemma_uuid_print_then_read(u: UUID, v: UUID)
    requires
        uuid_of_bytes(v, parsed_bytes(uuid_text(uuid_bytes(u)).push(0u16))),
    ensures
        valid_uuid_text(uuid_text(uuid_bytes(u)).push(0u16)),
        v.data1 == u.data1 && v.data2 == u.data2 && v.data3 == u.data3 && v.data4@ == u.data4@,
{
    lemma_uuid_text_roundtrip(u);
    lemma_uuid_bytes_roundtrip(u, v);
}

// =============================================================================
// Comparing
// =============================================================================

/// Whether `u` is the nil UUID.
pub open spec fn is_nil(u: UUID) -> bool {
    u.data1 == 0 && u.data2 == 0 && u.data3 == 0 && u.data4@ == Seq::new(8, |i: int| 0u8)
}

/// The order of the last eight bytes from byte `i` on: -1, 0 or 1 by the
/// first byte where they differ.
pub open spec fn data4_order(a: Seq<u8>, b: Seq<u8>, i: int) -> int
    decreases 8 - i,
{
    if i >= 8 {
        0
    } else if a[i] != b[i] {
        if a[i] < b[i] { -1 } else { 1 }
    } else {
        data4_order(a, b, i + 1)
    }
}

/// The order of two UUIDs: field by field, the last eight bytes byte by
/// byte; -1, 0 or 1.
pub open spec fn uuid_order(a: UUID, b: UUID) -> int {
    if a.data1 != b.data1 {
        if a.data1 < b.data1 { -1 } else { 1 }
    } else if a.data2 != b.data2 {
        if a.data2 < b.data2 { -1 } else { 1 }
    } else if a.data3 != b.data3 {
        if a.data3 < b.data3 { -1 } else { 1 }
    } else {
        data4_order(a.data4@, b.data4@, 0)
    }
}

/// The order of two possibly missing UUIDs: a missing one comes first,
/// and two missing ones are equal.
pub open spec fn opt_uuid_order(a: Option<UUID>, b: Option<UUID>) -> int {
    match (a, b) {
        (None, None) => 0,
        (None, Some(_)) => -1,
        (Some(_), None) => 1,
        (Some(x), Some(y)) => uuid_order(x, y),
    }
}

/// The UUID a reference that may be missing points to.
pub open spec fn deref_uuid(u: Option<&UUID>) -> Option<UUID> {
    match u {
        Some(x) => Some(*x),
        None => None,
    }
}

/// The order of two UUIDs, either possibly missing; `status` is set to
/// `RPC_S_OK`.
#[allow(non_snake_case)]
pub fn UuidCompare(uuid1: Option<&UUID>, uuid2: Option<&UUID>, status: &mut RPC_STATUS) -> (r: i32)
    ensures
        r == opt_uuid_order(deref_uuid(uuid1), deref_uuid(uuid2)),
        *final(status) == RPC_S_OK,
{
    *status = RPC_S_OK;
    match (uuid1, uuid2) {
        (None, None) => 0,
        (None, Some(_)) => -1,
        (Some(_), None) => 1,
        (Some(a), Some(b)) => {
            if a.data1 != b.data1 {
                return if a.data1 < b.data1 { -1 } else { 1 };
            }
            if a.data2 != b.data2 {
                return if a.data2 < b.data2 { -1 } else { 1 };
            }
            if a.data3 != b.data3 {
                return if a.data3 < b.data3 { -1 } else { 1 };
            }
            let mut i: usize = 0;
            while i < 8
                invariant
                    i <= 8,
                    *status == RPC_S_OK,
                    deref_uuid(uuid1) == Some(*a) && deref_uuid(uuid2) == Some(*b),
                    a.data1 == b.data1 && a.data2 == b.data2 && a.data3 == b.data3,
                    forall|j: int| 0 <= j < i ==> a.data4@[j] == b.data4@[j],
                    data4_order(a.data4@, b.data4@, 0) == data4_order(a.data4@, b.data4@, i as int),
                decreases 8 - i,
            {
                if a.data4[i] != b.data4[i] {
                    return if a.data4[i] < b.data4[i] { -1 } else { 1 };
                }
                i = i + 1;
            }
            0
        },
    }
}

/// Whether two UUIDs, either possibly missing, are equal: 1 or 0;
/// `status` is set to `RPC_S_OK`.
#[allow(non_snake_case)]
pub fn UuidEqual(uuid1: Option<&UUID>, uuid2: Option<&UUID>, status: &mut RPC_STATUS) -> (r: i32)
    ensures
        r == (if opt_uuid_order(deref_uuid(uuid1), deref_uuid(uuid2)) == 0 { 1int } else { 0int }),
        *final(status) == RPC_S_OK,
{
    let c = UuidCompare(uuid1, uuid2, status);
    if c == 0 { 1 } else { 0 }
}

/// Whether a UUID is nil (a missing one counts as nil): 1 or 0; `status`
/// is set to `RPC_S_OK`.
#[allow(non_snake_case)]
pub fn UuidIsNil(uuid: Option<&UUID>, status: &mut RPC_STATUS) -> (r: i32)
    ensures
        r == (match uuid { None => 1int, Some(u) => if is_nil(*u) { 1int } else { 0int } }),
        *final(status) == RPC_S_OK,
{
    *status = RPC_S_OK;
    match uuid {
        None => 1,
        Some(u) => {
            let mut all_zero = true;
            let mut i: usize = 0;
            while i < 8
                invariant
                    i <= 8,
                    all_zero == forall|j: int| 0 <= j < i ==> u.data4@[j] == 0u8,
                decreases 8 - i,
            {
                if u.data4[i] != 0 {
                    all_zero = false;
                }
                i = i + 1;
            }
            proof {
                if all_zero {
                    assert(u.data4@ =~= Seq::new(8, |i: int| 0u8));
                } else if u.data4@ == Seq::new(8, |i: int| 0u8) {
                    assert(forall|j: int| 0 <= j < 8 ==> u.data4@[j] == 0u8);
                }
            }
            if u.data1 == 0 && u.data2 == 0 && u.data3 == 0 && all_zero { 1 } else { 0 }
        },
    }
}

proof fn lemma_data4_order(a: Seq<u8>, b: Seq<u8>, c: Seq<u8>, i: int)
    requires
        0 <= i <= 8,
        a.len() == 8 && b.len() == 8 && c.len() == 8,
    ensures
        data4_order(a, a, i) == 0,
        data4_order(a, b, i) == -data4_order(b, a, i),
        data4_order(a, b, i) == 0 <==> a.subrange(i, 8) == b.subrange(i, 8),
        data4_order(a, b, i) == -1 && data4_order(b, c, i) == -1 ==> data4_order(a, c, i) == -1,
    decreases 8 - i,
{
    if i < 8 {
        lemma_data4_order(a, b, c, i + 1);
        if a[i] == b[i] && data4_order(a, b, i + 1) == 0 {
            assert(a.subrange(i, 8) =~= b.subrange(i, 8)) by {
                assert(a.subrange(i + 1, 8) == b.subrange(i + 1, 8));
                assert forall|j: int| 0 <= j < 8 - i implies a.subrange(i, 8)[j] == b.subrange(i, 8)[j] by {
                    if j > 0 {
                        assert(a.subrange(i, 8)[j] == a.subrange(i + 1, 8)[j - 1]);
                        assert(b.subrange(i, 8)[j] == b.subrange(i + 1, 8)[j - 1]);
                    }
                }
            }
        }
        if a.subrange(i, 8) == b.subrange(i, 8) {
            assert(a[i] == a.subrange(i, 8)[0]);
            assert(b[i] == b.subrange(i, 8)[0]);
            assert(a.subrange(i + 1, 8) =~= a.subrange(i, 8).subrange(1, 8 - i));
            assert(b.subrange(i + 1, 8) =~= b.subrange(i, 8).subrange(1, 8 - i));
        }
    } else {
        assert(a.subrange(i, 8) =~= b.subrange(i, 8));
    }
}

/// UUIDs are totally ordered: every UUID equals itself, swapping two
/// reverses their order, they compare equal exactly when all their
/// fields are equal, and the order is transitive.
pub proof fn lemma_uuid_order(a: UUID, b: UUID, c: UUID)
    ensures
        uuid_order(a, a) == 0,
        uuid_order(a, b) == -uuid_order(b, a),
        uuid_order(a, b) == 0 <==> (a.data1 == b.data1 && a.data2 == b.data2 && a.data3 == b.data3 && a.data4@ == b.data4@),
        uuid_order(a, b) == -1 && uuid_order(b, c) == -1 ==> uuid_order(a, c) == -1,
{
    lemma_data4_order(a.data4@, b.data4@, c.data4@, 0);
    lemma_data4_order(a.data4@, a.data4@, c.data4@, 0);
    lemma_data4_order(b.data4@, a.data4@, c.data4@, 0);
    assert(a.data4@.subrange(0, 8) =~= a.data4@);
    assert(b.data4@.subrange(0, 8) =~= b.data4@);
}

/// `256` to the power `8 - i`: the place just above byte `i` of the last
/// eight bytes read as one big-endian number.
pub open spec fn byte_place(i: int) -> int
    decreases 8 - i,
{
    if i >= 8 { 1 } else { 256 * byte_place(i + 1) }
}

/// Bytes `i..8` of `s` read as a big-endian number.
pub open spec fn tail_number(s: Seq<u8>, i: int) -> int
    decreases 8 - i,
{
    if i >= 8 { 0 } else { s[i] * byte_place(i + 1) + tail_number(s, i + 1) }
}

/// The 128-bit number a UUID's fields spell, most significant first:
/// `data1`, `data2`, `data3`, then the eight bytes.
pub open spec fn uuid_number(u: UUID) -> int {
    u.data1 * 0x1_0000_0000_0000_0000_0000_0000int + u.data2 * 0x1_0000_0000_0000_0000_0000int
        + u.data3 * 0x1_0000_0000_0000_0000int + tail_number(u.data4@, 0)
}

/// The sign of `x`: -1, 0 or 1.
pub open spec fn sign(x: int) -> int {
    if x < 0 { -1 } else if x > 0 { 1 } else { 0 }
}

proof fn lemma_tail_bounds(s: Seq<u8>, i: int)
    requires
        s.len() == 8,
        0 <= i <= 8,
    ensures
        0 <= tail_number(s, i) < byte_place(i),
        byte_place(i) >= 1,
    decreases 8 - i,
{
    if i < 8 {
        lemma_tail_bounds(s, i + 1);
        let p = byte_place(i + 1);
        let t = tail_number(s, i + 1);
        let b = s[i] as int;
        assert(0 <= b * p + t < 256 * p) by (nonlinear_arith)
            requires
                0 <= b <= 255,
                p >= 1,
                0 <= t < p,
        ;
    }
}

proof fn lemma_tail_order(a: Seq<u8>, b: Seq<u8>, i: int)
    requires
        a.len() == 8 && b.len() == 8,
        0 <= i <= 8,
    ensures
        data4_order(a, b, i) == sign(tail_number(a, i) - tail_number(b, i)),
    decreases 8 - i,
{
    if i < 8 {
        lemma_tail_order(a, b, i + 1);
        lemma_tail_bounds(a, i + 1);
        lemma_tail_bounds(b, i + 1);
        let p = byte_place(i + 1);
        let ta = tail_number(a, i + 1);
        let tb = tail_number(b, i + 1);
        let x = a[i] as int;
        let y = b[i] as int;
        if x < y {
            assert(x * p + ta < y * p + tb) by (nonlinear_arith)
                requires
                    x + 1 <= y,
                    p >= 1,
                    0 <= ta < p,
                    0 <= tb,
            ;
        } else if x > y {
            assert(x * p + ta > y * p + tb) by (nonlinear_arith)
                requires
                    y + 1 <= x,
                    p >= 1,
                    0 <= tb < p,
                    0 <= ta,
            ;
        }
    }
}

/// UUIDs are ordered as the 128-bit numbers their fields spell, most
/// significant field first (`data1`, then `data2`, `data3` and the eight
/// bytes in order): `UuidCompare` answers -1, 0 or 1 as the first number
/// is below, equal to or above the second.
pub proof fn lemma_uuid_order_is_numeric(a: UUID, b: UUID)
    ensures
        uuid_order(a, b) == sign(uuid_number(a) - uuid_number(b)),
{
    let ta = tail_number(a.data4@, 0);
    let tb = tail_number(b.data4@, 0);
    lemma_tail_bounds(a.data4@, 0);
    lemma_tail_bounds(b.data4@, 0);
    lemma_tail_order(a.data4@, b.data4@, 0);
    reveal_with_fuel(byte_place, 9);
    assert(byte_place(0) == 0x1_0000_0000_0000_0000int);
    let k64: int = 0x1_0000_0000_0000_0000int;
    let la = a.data2 * 0x1_0000_0000_0000_0000_0000int + a.data3 * k64 + ta;
    let lb = b.data2 * 0x1_0000_0000_0000_0000_0000int + b.data3 * k64 + tb;
    let ma = a.data3 * k64 + ta;
    let mb = b.data3 * k64 + tb;
    assert(0 <= ma < 0x1_0000_0000_0000_0000_0000int && 0 <= mb < 0x1_0000_0000_0000_0000_0000int)
        by (nonlinear_arith)
        requires
            0 <= a.data3 < 0x10000,
            0 <= b.data3 < 0x10000,
            0 <= ta < k64,
            0 <= tb < k64,
            k64 == 0x1_0000_0000_0000_0000int,
            ma == a.data3 * k64 + ta,
            mb == b.data3 * k64 + tb,
    ;
    assert(0 <= la < 0x1_0000_0000_0000_0000_0000_0000int && 0 <= lb < 0x1_0000_0000_0000_0000_0000_0000int)
        by (nonlinear_arith)
        requires
            0 <= a.data2 < 0x10000,
            0 <= b.data2 < 0x10000,
            0 <= ma < 0x1_0000_0000_0000_0000_0000int,
            0 <= mb < 0x1_0000_0000_0000_0000_0000int,
            la == a.data2 * 0x1_0000_0000_0000_0000_0000int + ma,
            lb == b.data2 * 0x1_0000_0000_0000_0000_0000int + mb,
    ;
    let big: int = 0x1_0000_0000_0000_0000_0000_0000int;
    assert(uuid_number(a) == a.data1 * big + la);
    assert(uuid_number(b) == b.data1 * big + lb);
    if a.data1 != b.data1 {
        let x = a.data1 as int;
        let y = b.data1 as int;
        if x < y {
            assert(x * big + la < y * big + lb) by (nonlinear_arith)
                requires x + 1 <= y, big > 0, 0 <= la < big, 0 <= lb;
        } else {
            assert(x * big + la > y * big + lb) by (nonlinear_arith)
                requires y + 1 <= x, big > 0, 0 <= lb < big, 0 <= la;
        }
    } else if a.data2 != b.data2 {
        let x = a.data2 as int;
        let y = b.data2 as int;
        let p: int = 0x1_0000_0000_0000_0000_0000int;
        if x < y {
            assert(x * p + ma < y * p + mb) by (nonlinear_arith)
                requires x + 1 <= y, p > 0, 0 <= ma < p, 0 <= mb;
        } else {
            assert(x * p + ma > y * p + mb) by (nonlinear_arith)
                requires y + 1 <= x, p > 0, 0 <= mb < p, 0 <= ma;
        }
    } else if a.data3 != b.data3 {
        let x = a.data3 as int;
        let y = b.data3 as int;
        if x < y {
            assert(x * k64 + ta < y * k64 + tb) by (nonlinear_arith)
                requires x + 1 <= y, k64 > 0, 0 <= ta < k64, 0 <= tb;
        } else {
            assert(x * k64 + ta > y * k64 + tb) by (nonlinear_arith)
                requires y + 1 <= x, k64 > 0, 0 <= tb < k64, 0 <= ta;
        }
    }
}

} // verus!
