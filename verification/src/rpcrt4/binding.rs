//! Bindings: the registry of live bindings, string bindings
//! (`uuid@protseq:address[endpoint,options]`) composed and parsed, and the
//! operations on a binding that a handle names.
//!
//! A binding handle is its registry slot plus one; 0 is the null handle.

use vstd::prelude::*;
use crate::rpcrt4::types::{RpcBindingInternal, UUID, RPC_STATUS, RPC_BINDING_HANDLE, MAX_BINDINGS, RPC_S_OK,
    RPC_S_INVALID_BINDING, RPC_S_INVALID_STRING_BINDING, RPC_S_STRING_TOO_LONG, RPC_S_OUT_OF_RESOURCES,
    RPC_C_AUTHN_LEVEL_NONE, RPC_C_AUTHN_NONE, RPC_C_AUTHZ_NONE};
use crate::rpcrt4::wstr::{wlen, wstr, wstrlen, lemma_wlen, lemma_wlen_unique};

verus! {

// =============================================================================
// The registry
// =============================================================================

/// How many slots of `s` hold a binding.
pub open spec fn count_live(s: Seq<Option<RpcBindingInternal>>) -> nat
    decreases s.len(),
{
    if s.len() == 0 {
        0
    } else {
        count_live(s.drop_last()) + if s.last() is Some { 1nat } else { 0nat }
    }
}

proof fn lemma_count_live_update(s: Seq<Option<RpcBindingInternal>>, i: int, x: Option<RpcBindingInternal>)
    requires
        0 <= i < s.len(),
    ensures
        count_live(s.update(i, x)) + (if s[i] is Some { 1int } else { 0int })
            == count_live(s) + (if x is Some { 1int } else { 0int }),
    decreases s.len(),
{
    if i < s.len() - 1 {
        lemma_count_live_update(s.drop_last(), i, x);
        assert(s.update(i, x).drop_last() =~= s.drop_last().update(i, x));
    } else {
        assert(s.update(i, x).drop_last() =~= s.drop_last());
    }
}

proof fn lemma_count_live_full(s: Seq<Option<RpcBindingInternal>>)
    ensures
        count_live(s) <= s.len(),
        (forall|j: int| 0 <= j < s.len() ==> #[trigger] s[j] is Some) ==> count_live(s) == s.len(),
    decreases s.len(),
{
    if s.len() > 0 {
        lemma_count_live_full(s.drop_last());
        if forall|j: int| 0 <= j < s.len() ==> #[trigger] s[j] is Some {
            assert forall|j: int| 0 <= j < s.drop_last().len() implies #[trigger] s.drop_last()[j] is Some by {
                assert(s[j] is Some);
            }
            assert(s[s.len() - 1] is Some);
        }
    }
}

/// The live bindings, one per slot, and how many there are.
pub struct BindingRegistry {
    pub bindings: Vec<Option<RpcBindingInternal>>,
    pub count: usize,
}

/// `i` is the first free slot of `s`.
pub open spec fn first_free(s: Seq<Option<RpcBindingInternal>>, i: int) -> bool {
    &&& 0 <= i < s.len()
    &&& s[i] is None
    &&& forall|j: int| 0 <= j < i ==> #[trigger] s[j] is Some
}

impl BindingRegistry {
    /// The registry has its slots and counts its live bindings.
    pub open spec fn wf(&self) -> bool {
        &&& self.bindings@.len() == MAX_BINDINGS
        &&& self.count == count_live(self.bindings@)
    }

    /// The binding a handle names, if it names a live one.
    pub open spec fn binding_at(&self, handle: u64) -> Option<RpcBindingInternal> {
        if 1 <= handle <= self.bindings@.len() {
            self.bindings@[handle - 1]
        } else {
            None
        }
    }

    /// An empty registry.
    pub fn new() -> (r: Self)
        ensures
            r.wf(),
            forall|h: u64| #[trigger] r.binding_at(h) is None,
    {
        let mut bindings: Vec<Option<RpcBindingInternal>> = Vec::new();
        let mut i: usize = 0;
        while i < MAX_BINDINGS
            invariant
                i <= MAX_BINDINGS,
                bindings@.len() == i,
                forall|j: int| 0 <= j < i ==> #[trigger] bindings@[j] is None,
                count_live(bindings@) == 0,
            decreases MAX_BINDINGS - i,
        {
            proof {
                assert(bindings@.push(None).drop_last() =~= bindings@);
            }
            bindings.push(None);
            i = i + 1;
        }
        BindingRegistry { bindings, count: 0 }
    }

    /// The first free slot, when fewer than the maximum number of
    /// bindings are live.
    pub fn allocate_binding(&self) -> (r: Option<usize>)
        requires
            self.wf(),
        ensures
            r is None <==> self.count >= MAX_BINDINGS,
            r matches Some(i) ==> first_free(self.bindings@, i as int),
    {
        if self.count >= MAX_BINDINGS {
            return None;
        }
        let mut i: usize = 0;
        while i < MAX_BINDINGS
            invariant
                i <= MAX_BINDINGS,
                self.wf(),
                self.count < MAX_BINDINGS,
                forall|j: int| 0 <= j < i ==> #[trigger] self.bindings@[j] is Some,
            decreases MAX_BINDINGS - i,
        {
            if self.bindings[i].is_none() {
                return Some(i);
            }
            i = i + 1;
        }
        proof {
            lemma_count_live_full(self.bindings@);
        }
        None
    }

    /// Put a binding in the first free slot and count it; the slot, or
    /// `None` with nothing changed when the registry is full.
    pub fn add_binding(&mut self, binding: RpcBindingInternal) -> (r: Option<usize>)
        requires
            old(self).wf(),
        ensures
            final(self).wf(),
            r is None <==> old(self).count >= MAX_BINDINGS,
            r is None ==> final(self).bindings@ == old(self).bindings@ && final(self).count == old(self).count,
            r matches Some(i) ==> first_free(old(self).bindings@, i as int)
                && final(self).bindings@ == old(self).bindings@.update(i as int, Some(binding)),
    {
        match self.allocate_binding() {
            None => None,
            Some(idx) => {
                proof {
                    lemma_count_live_update(self.bindings@, idx as int, Some(binding));
                }
                self.bindings.set(idx, Some(binding));
                self.count = self.count + 1;
                Some(idx)
            },
        }
    }

    /// Take the binding a handle names out of the registry; whether it
    /// was there.
    pub fn remove_binding(&mut self, handle: u64) -> (r: bool)
        requires
            old(self).wf(),
        ensures
            final(self).wf(),
            r == old(self).binding_at(handle) is Some,
            r ==> final(self).bindings@ == old(self).bindings@.update(handle - 1, None),
            !r ==> final(self).bindings@ == old(self).bindings@ && final(self).count == old(self).count,
    {
        if handle == 0 || handle > MAX_BINDINGS as u64 {
            return false;
        }
        let i = (handle - 1) as usize;
        if self.bindings[i].is_none() {
            return false;
        }
        proof {
            lemma_count_live_update(self.bindings@, i as int, None);
        }
        self.bindings.set(i, None);
        self.count = self.count - 1;
        true
    }

    /// Whether a handle names a live binding.
    pub fn find_binding(&self, handle: u64) -> (r: bool)
        requires
            self.wf(),
        ensures
            r == self.binding_at(handle) is Some,
    {
        handle != 0 && handle <= MAX_BINDINGS as u64 && self.bindings[(handle - 1) as usize].is_some()
    }

    /// A copy of the binding a handle names, if it names a live one.
    pub fn get(&self, handle: u64) -> (r: Option<RpcBindingInternal>)
        requires
            self.wf(),
        ensures
            r == self.binding_at(handle),
    {
        if handle == 0 || handle > MAX_BINDINGS as u64 {
            None
        } else {
            self.bindings[(handle - 1) as usize]
        }
    }

    /// Replace the live binding a handle names.
    pub fn put(&mut self, handle: u64, binding: RpcBindingInternal)
        requires
            old(self).wf(),
            old(self).binding_at(handle) is Some,
        ensures
            final(self).wf(),
            final(self).count == old(self).count,
            final(self).bindings@ == old(self).bindings@.update(handle - 1, Some(binding)),
            final(self).binding_at(handle) == Some(binding),
    {
        let i = (handle - 1) as usize;
        proof {
            lemma_count_live_update(self.bindings@, i as int, Some(binding));
        }
        self.bindings.set(i, Some(binding));
    }
}

// =============================================================================
// Composing string bindings
// =============================================================================

pub open spec fn opt_str(s: Option<Seq<u16>>) -> Seq<u16> {
    match s {
        Some(x) => x,
        None => Seq::empty(),
    }
}

/// The string binding made of these parts:
/// `uuid@protseq:address[endpoint,options]`, each part and its separator
/// left out when the part is missing, and the brackets only when an
/// endpoint or options are given.
pub open spec fn composed(obj_uuid: Option<Seq<u16>>, protseq: Option<Seq<u16>>, network_addr: Option<Seq<u16>>,
    endpoint: Option<Seq<u16>>, options: Option<Seq<u16>>) -> Seq<u16> {
    (if obj_uuid is Some { opt_str(obj_uuid).push(0x40u16) } else { Seq::empty() })
    + (if protseq is Some { opt_str(protseq).push(0x3Au16) } else { Seq::empty() })
    + opt_str(network_addr)
    + (if endpoint is Some || options is Some {
        seq![0x5Bu16] + opt_str(endpoint)
            + (if options is Some { seq![0x2Cu16] + opt_str(options) } else { Seq::empty() })
            + seq![0x5Du16]
    } else {
        Seq::empty()
    })
}

/// The string a slice that may be missing holds.
pub open spec fn opt_wstr(s: Option<&[u16]>) -> Option<Seq<u16>> {
    match s {
        Some(x) => Some(wstr(x@)),
        None => None,
    }
}

fn push_wstr(out: &mut Vec<u16>, s: &[u16])
    ensures
        final(out)@ == old(out)@ + wstr(s@),
{
    let n = wstrlen(s);
    proof {
        lemma_wlen(s@);
    }
    let mut i: usize = 0;
    while i < n
        invariant
            i <= n,
            n == wlen(s@),
            n <= s@.len(),
            out@ == old(out)@ + s@.subrange(0, i as int),
        decreases n - i,
    {
        proof {
            assert(s@.subrange(0, i + 1) =~= s@.subrange(0, i as int).push(s@[i as int]));
        }
        out.push(s[i]);
        i = i + 1;
    }
}

fn push_part(out: &mut Vec<u16>, s: Option<&[u16]>, sep: u16)
    ensures
        final(out)@ == old(out)@ + (if s is Some { opt_str(opt_wstr(s)).push(sep) } else { Seq::empty() }),
{
    if let Some(x) = s {
        push_wstr(out, x);
        out.push(sep);
        proof {
            assert(out@ =~= old(out)@ + opt_str(opt_wstr(s)).push(sep));
        }
    } else {
        assert(out@ =~= old(out)@ + Seq::empty());
    }
}

/// The bracketed tail of a string binding: endpoint, then a comma and
/// the options where given.
pub open spec fn bracketed(endpoint: Option<Seq<u16>>, options: Option<Seq<u16>>) -> Seq<u16> {
    seq![0x5Bu16] + opt_str(endpoint) + (if options is Some { seq![0x2Cu16] + opt_str(options) } else { Seq::empty() })
        + seq![0x5Du16]
}

fn push_bracketed(out: &mut Vec<u16>, endpoint: Option<&[u16]>, options: Option<&[u16]>)
    ensures
        final(out)@ == old(out)@ + bracketed(opt_wstr(endpoint), opt_wstr(options)),
{
    out.push(0x5B);
    if let Some(x) = endpoint {
        push_wstr(out, x);
    }
    let ghost mid = out@;
    assert(mid =~= old(out)@ + seq![0x5Bu16] + opt_str(opt_wstr(endpoint)));
    if let Some(x) = options {
        out.push(0x2C);
        push_wstr(out, x);
        assert(out@ =~= mid + (seq![0x2Cu16] + opt_str(opt_wstr(options))));
    } else {
        assert(out@ =~= mid + Seq::empty());
    }
    out.push(0x5D);
    assert(out@ =~= old(out)@ + bracketed(opt_wstr(endpoint), opt_wstr(options)));
}

/// Compose a string binding from its parts, each a terminated string that
/// may be missing; the result is terminated. Always `RPC_S_OK`.
#[allow(non_snake_case)]
pub fn RpcStringBindingComposeW(obj_uuid: Option<&[u16]>, protseq: Option<&[u16]>, network_addr: Option<&[u16]>,
    endpoint: Option<&[u16]>, options: Option<&[u16]>, string_binding: &mut Vec<u16>) -> (r: RPC_STATUS)
    ensures
        r == RPC_S_OK,
        final(string_binding)@ == composed(opt_wstr(obj_uuid), opt_wstr(protseq), opt_wstr(network_addr),
            opt_wstr(endpoint), opt_wstr(options)).push(0u16),
{
    let mut out: Vec<u16> = Vec::new();
    push_part(&mut out, obj_uuid, 0x40);
    push_part(&mut out, protseq, 0x3A);
    if let Some(x) = network_addr {
        push_wstr(&mut out, x);
    }
    let ghost before = out@;
    if endpoint.is_some() || options.is_some() {
        push_bracketed(&mut out, endpoint, options);
    }
    proof {
        assert(out@ =~= composed(opt_wstr(obj_uuid), opt_wstr(protseq), opt_wstr(network_addr),
            opt_wstr(endpoint), opt_wstr(options)));
    }
    out.push(0);
    *string_binding = out;
    RPC_S_OK
}

// =============================================================================
// Parsing string bindings
// =============================================================================

/// The first position in `from..end` where `s` holds `c`.
pub open spec fn find_unit(s: Seq<u16>, c: u16, from: int, end: int) -> Option<int>
    decreases end - from,
{
    if from >= end {
        None
    } else if s[from] == c {
        Some(from)
    } else {
        find_unit(s, c, from + 1, end)
    }
}

proof fn lemma_find_unit(s: Seq<u16>, c: u16, from: int, end: int)
    requires
        0 <= from,
        end <= s.len(),
    ensures
        match find_unit(s, c, from, end) {
            Some(i) => from <= i < end && s[i] == c && forall|j: int| from <= j < i ==> #[trigger] s[j] != c,
            None => forall|j: int| from <= j < end ==> #[trigger] s[j] != c,
        },
    decreases end - from,
{
    if from < end && s[from] != c {
        lemma_find_unit(s, c, from + 1, end);
    }
}

/// The first position in `from..end` where `s` holds `c`.
fn find_unit_exec(s: &[u16], c: u16, from: usize, end: usize) -> (r: Option<usize>)
    requires
        end <= s@.len(),
    ensures
        match r {
            Some(i) => find_unit(s@, c, from as int, end as int) == Some(i as int) && i < end,
            None => find_unit(s@, c, from as int, end as int) is None,
        },
{
    let mut i = from;
    while i < end
        invariant
            from <= i,
            end <= s@.len(),
            find_unit(s@, c, from as int, end as int) == find_unit(s@, c, i as int, end as int),
        decreases end - i,
    {
        if s[i] == c {
            return Some(i);
        }
        i = i + 1;
    }
    None
}

/// The fields a string binding gives: protocol sequence, network address,
/// endpoint and options (the last two empty where absent); or the status
/// that refuses it. The object UUID before `@` is skipped.
pub open spec fn parse_binding(s: Seq<u16>) -> Result<(Seq<u16>, Seq<u16>, Seq<u16>, Seq<u16>), RPC_STATUS> {
    let len = wlen(s);
    let start = match find_unit(s, 0x40u16, 0, len) {
        Some(at) => at + 1,
        None => 0,
    };
    match find_unit(s, 0x3Au16, start, len) {
        None => Err(RPC_S_INVALID_STRING_BINDING),
        Some(colon) => if colon - start >= 16 {
            Err(RPC_S_STRING_TOO_LONG)
        } else {
            let pos = colon + 1;
            let bracket = find_unit(s, 0x5Bu16, pos, len);
            let net_end = match bracket {
                Some(b) => b,
                None => len,
            };
            if net_end - pos >= 128 {
                Err(RPC_S_STRING_TOO_LONG)
            } else {
                match bracket {
                    None => Ok((s.subrange(start, colon), s.subrange(pos, len), Seq::empty(), Seq::empty())),
                    Some(b) => match find_unit(s, 0x5Du16, b + 1, len) {
                        None => Err(RPC_S_INVALID_STRING_BINDING),
                        Some(close) => {
                            let comma = find_unit(s, 0x2Cu16, b + 1, close);
                            let ep_end = match comma {
                                Some(cm) => cm,
                                None => close,
                            };
                            if ep_end - (b + 1) >= 64 {
                                Err(RPC_S_STRING_TOO_LONG)
                            } else {
                                match comma {
                                    None => Ok((s.subrange(start, colon), s.subrange(pos, b),
                                        s.subrange(b + 1, close), Seq::empty())),
                                    Some(cm) => if close - (cm + 1) >= 64 {
                                        Err(RPC_S_STRING_TOO_LONG)
                                    } else {
                                        Ok((s.subrange(start, colon), s.subrange(pos, b),
                                            s.subrange(b + 1, cm), s.subrange(cm + 1, close)))
                                    },
                                }
                            }
                        },
                    },
                }
            }
        },
    }
}

/// A field array holding `x`, padded with NULs.
pub open spec fn field(x: Seq<u16>, n: nat) -> Seq<u16> {
    Seq::new(n, |i: int| if i < x.len() { x[i] } else { 0u16 })
}

/// `b` is a fresh binding with these fields.
pub open spec fn binding_with(b: RpcBindingInternal, f: (Seq<u16>, Seq<u16>, Seq<u16>, Seq<u16>)) -> bool {
    &&& b.protseq@ == field(f.0, 16)
    &&& b.network_addr@ == field(f.1, 128)
    &&& b.endpoint@ == field(f.2, 64)
    &&& b.options@ == field(f.3, 64)
    &&& b.object_uuid.data1 == 0 && b.object_uuid.data2 == 0 && b.object_uuid.data3 == 0
    &&& b.object_uuid.data4@ == Seq::new(8, |i: int| 0u8)
    &&& b.lpc_port_index == 0
    &&& b.auth_level == RPC_C_AUTHN_LEVEL_NONE && b.auth_svc == RPC_C_AUTHN_NONE
    &&& b.auth_identity == 0 && b.authz_svc == RPC_C_AUTHZ_NONE
    &&& b.ref_count == 1
}

fn fill_field<const N: usize>(dst: &mut [u16; N], s: &[u16], start: usize, n: usize)
    requires
        start + n <= s@.len(),
        n < N,
        old(dst)@ == Seq::new(N as nat, |i: int| 0u16),
    ensures
        final(dst)@ == field(s@.subrange(start as int, start + n), N as nat),
{
    let mut i: usize = 0;
    while i < n
        invariant
            i <= n,
            start + n <= s.len(),
            n < N,
            dst@.len() == N,
            forall|j: int| 0 <= j < N ==> #[trigger] dst@[j] == if j < i { s@[start + j] } else { 0u16 },
        decreases n - i,
    {
        dst[i] = s[start + i];
        i = i + 1;
    }
    assert(dst@ =~= field(s@.subrange(start as int, start + n), N as nat));
}

/// Parse a string binding (a terminated string) into a new binding and
/// register it: `RPC_S_OK` with `binding` set to its handle; or the
/// status `parse_binding` gives, or `RPC_S_OUT_OF_RESOURCES` when the
/// registry is full, with nothing changed.
#[allow(non_snake_case)]
pub fn RpcBindingFromStringBindingW(registry: &mut BindingRegistry, string_binding: &[u16], binding: &mut RPC_BINDING_HANDLE) -> (r: RPC_STATUS)
    requires
        old(registry).wf(),
    ensures
        final(registry).wf(),
        match parse_binding(string_binding@) {
            Err(e) => r == e,
            Ok(f) => if old(registry).count >= MAX_BINDINGS {
                r == RPC_S_OUT_OF_RESOURCES
            } else {
                &&& r == RPC_S_OK
                &&& first_free(old(registry).bindings@, *final(binding) - 1)
                &&& final(registry).bindings@ == old(registry).bindings@.update(*final(binding) - 1, final(registry).bindings@[*final(binding) - 1])
                &&& final(registry).bindings@[*final(binding) - 1] matches Some(b) && binding_with(b, f)
            },
        },
        r != RPC_S_OK ==> final(registry).bindings@ == old(registry).bindings@ && final(registry).count == old(registry).count
            && *final(binding) == *old(binding),
{
    let ghost s = string_binding@;
    let len = wstrlen(string_binding);
    proof {
        lemma_wlen(s);
    }
    let start: usize = match find_unit_exec(string_binding, 0x40, 0, len) {
        Some(at) => at + 1,
        None => 0,
    };
    proof {
        lemma_find_unit(s, 0x40u16, 0, len as int);
    }
    let colon = match find_unit_exec(string_binding, 0x3A, start, len) {
        None => return RPC_S_INVALID_STRING_BINDING,
        Some(c) => c,
    };
    proof {
        lemma_find_unit(s, 0x3Au16, start as int, len as int);
    }
    if colon - start >= 16 {
        return RPC_S_STRING_TOO_LONG;
    }
    let mut b = RpcBindingInternal::new();
    fill_field(&mut b.protseq, string_binding, start, colon - start);
    let pos = colon + 1;
    let bracket = find_unit_exec(string_binding, 0x5B, pos, len);
    proof {
        lemma_find_unit(s, 0x5Bu16, pos as int, len as int);
    }
    let net_end: usize = match bracket {
        Some(x) => x,
        None => len,
    };
    if net_end - pos >= 128 {
        return RPC_S_STRING_TOO_LONG;
    }
    fill_field(&mut b.network_addr, string_binding, pos, net_end - pos);
    let ghost mut fields: (Seq<u16>, Seq<u16>, Seq<u16>, Seq<u16>) = (s.subrange(start as int, colon as int),
        s.subrange(pos as int, net_end as int), Seq::empty(), Seq::empty());
    assert(b.endpoint@ =~= field(Seq::empty(), 64));
    assert(b.options@ =~= field(Seq::empty(), 64));
    if let Some(br) = bracket {
        let p2 = br + 1;
        let close = match find_unit_exec(string_binding, 0x5D, p2, len) {
            None => return RPC_S_INVALID_STRING_BINDING,
            Some(c) => c,
        };
        proof {
            lemma_find_unit(s, 0x5Du16, p2 as int, len as int);
        }
        let comma = find_unit_exec(string_binding, 0x2C, p2, close);
        proof {
            lemma_find_unit(s, 0x2Cu16, p2 as int, close as int);
        }
        let ep_end: usize = match comma {
            Some(cm) => cm,
            None => close,
        };
        if ep_end - p2 >= 64 {
            return RPC_S_STRING_TOO_LONG;
        }
        fill_field(&mut b.endpoint, string_binding, p2, ep_end - p2);
        proof {
            fields.2 = s.subrange(p2 as int, ep_end as int);
        }
        if let Some(cm) = comma {
            let p3 = cm + 1;
            if close - p3 >= 64 {
                return RPC_S_STRING_TOO_LONG;
            }
            fill_field(&mut b.options, string_binding, p3, close - p3);
            proof {
                fields.3 = s.subrange(p3 as int, close as int);
            }
        }
    }
    assert(parse_binding(s) == Ok::<(Seq<u16>, Seq<u16>, Seq<u16>, Seq<u16>), RPC_STATUS>(fields));
    assert(binding_with(b, fields));
    match registry.add_binding(b) {
        None => RPC_S_OUT_OF_RESOURCES,
        Some(idx) => {
            *binding = (idx + 1) as u64;
            RPC_S_OK
        },
    }
}

// =============================================================================
// Operations on a binding
// =============================================================================

/// The string binding of the binding a handle names: its protocol
/// sequence, address, endpoint and options, the brackets always present
/// (`RPC_S_OK`); `RPC_S_INVALID_BINDING`, with nothing written, for a
/// null handle or one that names no live binding.
#[allow(non_snake_case)]
pub fn RpcBindingToStringBindingW(registry: &BindingRegistry, binding: RPC_BINDING_HANDLE, string_binding: &mut Vec<u16>) -> (r: RPC_STATUS)
    requires
        registry.wf(),
    ensures
        r == (if registry.binding_at(binding) is Some { RPC_S_OK } else { RPC_S_INVALID_BINDING }),
        registry.binding_at(binding) matches Some(b) ==> final(string_binding)@ == composed(None, Some(wstr(b.protseq@)),
            Some(wstr(b.network_addr@)), Some(wstr(b.endpoint@)), Some(wstr(b.options@))).push(0u16),
        registry.binding_at(binding) is None ==> *final(string_binding) == *old(string_binding),
{
    match registry.get(binding) {
        None => RPC_S_INVALID_BINDING,
        Some(b) => RpcStringBindingComposeW(None, Some(b.protseq.as_slice()), Some(b.network_addr.as_slice()),
            Some(b.endpoint.as_slice()), Some(b.options.as_slice()), string_binding),
    }
}

/// Free the binding a handle names: take it out of the registry and null
/// the handle (`RPC_S_OK`); `RPC_S_INVALID_BINDING`, with nothing changed,
/// for a null handle or one that names no live binding.
#[allow(non_snake_case)]
pub fn RpcBindingFree(registry: &mut BindingRegistry, binding: &mut RPC_BINDING_HANDLE) -> (r: RPC_STATUS)
    requires
        old(registry).wf(),
    ensures
        final(registry).wf(),
        r == (if old(registry).binding_at(*old(binding)) is Some { RPC_S_OK } else { RPC_S_INVALID_BINDING }),
        r == RPC_S_OK ==> final(registry).bindings@ == old(registry).bindings@.update(*old(binding) - 1, None)
            && *final(binding) == 0,
        r != RPC_S_OK ==> final(registry).bindings@ == old(registry).bindings@ && final(registry).count == old(registry).count
            && *final(binding) == *old(binding),
{
    if *binding == 0 {
        return RPC_S_INVALID_BINDING;
    }
    if !registry.remove_binding(*binding) {
        return RPC_S_INVALID_BINDING;
    }
    *binding = 0;
    RPC_S_OK
}

/// Share the binding a handle names: one more reference to it, and the
/// same handle in `dest_binding` (`RPC_S_OK`); `RPC_S_INVALID_BINDING`,
/// with nothing changed, for a null handle or one that names no live
/// binding.
#[allow(non_snake_case)]
pub fn RpcBindingCopy(registry: &mut BindingRegistry, source_binding: RPC_BINDING_HANDLE, dest_binding: &mut RPC_BINDING_HANDLE) -> (r: RPC_STATUS)
    requires
        old(registry).wf(),
        old(registry).binding_at(source_binding) matches Some(b) ==> b.ref_count < u32::MAX,
    ensures
        final(registry).wf(),
        final(registry).count == old(registry).count,
        r == (if old(registry).binding_at(source_binding) is Some { RPC_S_OK } else { RPC_S_INVALID_BINDING }),
        old(registry).binding_at(source_binding) matches Some(b) ==> *final(dest_binding) == source_binding
            && final(registry).bindings@ == old(registry).bindings@.update(source_binding - 1,
                Some(RpcBindingInternal { ref_count: (b.ref_count + 1) as u32, ..b })),
        r != RPC_S_OK ==> final(registry).bindings@ == old(registry).bindings@ && *final(dest_binding) == *old(dest_binding),
{
    match registry.get(source_binding) {
        None => RPC_S_INVALID_BINDING,
        Some(b) => {
            let nb = RpcBindingInternal { ref_count: b.ref_count + 1, ..b };
            registry.put(source_binding, nb);
            *dest_binding = source_binding;
            RPC_S_OK
        },
    }
}

/// Forget the LPC port of the binding a handle names (`RPC_S_OK`);
/// `RPC_S_INVALID_BINDING`, with nothing changed, for a null handle or one
/// that names no live binding.
#[allow(non_snake_case)]
pub fn RpcBindingReset(registry: &mut BindingRegistry, binding: RPC_BINDING_HANDLE) -> (r: RPC_STATUS)
    requires
        old(registry).wf(),
    ensures
        final(registry).wf(),
        final(registry).count == old(registry).count,
        r == (if old(registry).binding_at(binding) is Some { RPC_S_OK } else { RPC_S_INVALID_BINDING }),
        old(registry).binding_at(binding) matches Some(b) ==> final(registry).bindings@ == old(registry).bindings@.update(binding - 1,
            Some(RpcBindingInternal { lpc_port_index: 0, ..b })),
        r != RPC_S_OK ==> final(registry).bindings@ == old(registry).bindings@,
{
    match registry.get(binding) {
        None => RPC_S_INVALID_BINDING,
        Some(b) => {
            registry.put(binding, RpcBindingInternal { lpc_port_index: 0, ..b });
            RPC_S_OK
        },
    }
}

/// Set the object UUID of the binding a handle names, to the nil UUID
/// when none is given (`RPC_S_OK`); `RPC_S_INVALID_BINDING`, with nothing
/// changed, for a null handle or one that names no live binding.
#[allow(non_snake_case)]
pub fn RpcBindingSetObject(registry: &mut BindingRegistry, binding: RPC_BINDING_HANDLE, object_uuid: Option<&UUID>) -> (r: RPC_STATUS)
    requires
        old(registry).wf(),
    ensures
        final(registry).wf(),
        final(registry).count == old(registry).count,
        r == (if old(registry).binding_at(binding) is Some { RPC_S_OK } else { RPC_S_INVALID_BINDING }),
        old(registry).binding_at(binding) matches Some(b) ==> final(registry).binding_at(binding) matches Some(nb)
            && final(registry).bindings@ == old(registry).bindings@.update(binding - 1, Some(nb))
            && nb == (RpcBindingInternal { object_uuid: nb.object_uuid, ..b })
            && match object_uuid {
                Some(u) => nb.object_uuid == *u,
                None => nb.object_uuid.data1 == 0 && nb.object_uuid.data2 == 0 && nb.object_uuid.data3 == 0
                    && nb.object_uuid.data4@ == Seq::new(8, |i: int| 0u8),
            },
        r != RPC_S_OK ==> final(registry).bindings@ == old(registry).bindings@,
{
    match registry.get(binding) {
        None => RPC_S_INVALID_BINDING,
        Some(b) => {
            let u = match object_uuid {
                Some(x) => *x,
                None => UUID::nil(),
            };
            registry.put(binding, RpcBindingInternal { object_uuid: u, ..b });
            RPC_S_OK
        },
    }
}

/// The object UUID of the binding a handle names (`RPC_S_OK`);
/// `RPC_S_INVALID_BINDING`, with nothing written, for a null handle or one
/// that names no live binding.
#[allow(non_snake_case)]
pub fn RpcBindingInqObject(registry: &BindingRegistry, binding: RPC_BINDING_HANDLE, object_uuid: &mut UUID) -> (r: RPC_STATUS)
    requires
        registry.wf(),
    ensures
        r == (if registry.binding_at(binding) is Some { RPC_S_OK } else { RPC_S_INVALID_BINDING }),
        registry.binding_at(binding) matches Some(b) ==> *final(object_uuid) == b.object_uuid,
        registry.binding_at(binding) is None ==> *final(object_uuid) == *old(object_uuid),
{
    match registry.get(binding) {
        None => RPC_S_INVALID_BINDING,
        Some(b) => {
            *object_uuid = b.object_uuid;
            RPC_S_OK
        },
    }
}

// =============================================================================
// Composing, then parsing
// =============================================================================

proof fn lemma_find_at(s: Seq<u16>, c: u16, from: int, end: int, k: int)
    requires
        0 <= from <= k < end <= s.len(),
        s[k] == c,
        forall|j: int| from <= j < k ==> #[trigger] s[j] != c,
    ensures
        find_unit(s, c, from, end) == Some(k),
    decreases k - from,
{
    if from < k {
        lemma_find_at(s, c, from + 1, end, k);
    }
}

proof fn lemma_find_none(s: Seq<u16>, c: u16, from: int, end: int)
    requires
        0 <= from,
        end <= s.len(),
        forall|j: int| from <= j < end ==> #[trigger] s[j] != c,
    ensures
        find_unit(s, c, from, end) is None,
    decreases end - from,
{
    if from < end {
        lemma_find_none(s, c, from + 1, end);
    }
}

/// `x` holds none of the units in `banned`.
pub open spec fn avoids(x: Seq<u16>, banned: Seq<u16>) -> bool {
    forall|i: int| 0 <= i < x.len() ==> !banned.contains(#[trigger] x[i])
}

/// A string binding composed from a protocol sequence, an address, and
/// an endpoint and options that may be missing parses back into those
/// parts (a missing one as empty), when each part fits its field and
/// holds no NUL, no `@` and none of the separators that end it: `:` for
/// the protocol sequence, `[` for the address, `,` and `]` for the
/// endpoint, `]` for the options.
pub proof fn lemma_compose_then_parse(p: Seq<u16>, a: Seq<u16>, e: Option<Seq<u16>>, o: Option<Seq<u16>>)
    requires
        p.len() < 16 && a.len() < 128 && opt_str(e).len() < 64 && opt_str(o).len() < 64,
        avoids(p, seq![0u16, 0x40u16, 0x3Au16]),
        avoids(a, seq![0u16, 0x40u16, 0x5Bu16]),
        avoids(opt_str(e), seq![0u16, 0x40u16, 0x2Cu16, 0x5Du16]),
        avoids(opt_str(o), seq![0u16, 0x40u16, 0x5Du16]),
    ensures
        parse_binding(composed(None, Some(p), Some(a), e, o).push(0u16)) == Ok::<(Seq<u16>, Seq<u16>, Seq<u16>, Seq<u16>), RPC_STATUS>(
            (p, a, opt_str(e), opt_str(o))),
{
    let es = opt_str(e);
    let os = opt_str(o);
    let body = composed(None, Some(p), Some(a), e, o);
    let t = body.push(0u16);
    let pl = p.len() as int;
    let al = a.len() as int;
    let el = es.len() as int;
    let ol = os.len() as int;
    let pos = pl + 1;
    let brackets = e is Some || o is Some;
    assert(body =~= p.push(0x3Au16) + a + (if brackets { bracketed(e, o) } else { Seq::empty() }));
    assert(forall|i: int| 0 <= i < pl ==> #[trigger] t[i] == p[i]);
    assert(t[pl] == 0x3Au16);
    assert(forall|i: int| 0 <= i < al ==> #[trigger] t[pos + i] == a[i]);
    assert(bracketed(e, o).len() == 2 + el + if o is Some { ol + 1 } else { 0 });
    let len = body.len() as int;
    assert(len == pos + al + if brackets { 2 + el + if o is Some { ol + 1 } else { 0 } } else { 0 });
    // the body holds no NUL, so the string ends where the body does
    assert forall|j: int| 0 <= j < len implies #[trigger] t[j] != 0u16 && t[j] != 0x40u16 by {
        if j < pl {
            assert(t[j] == p[j]);
            assert(!seq![0u16, 0x40u16, 0x3Au16].contains(p[j]));
            assert(seq![0u16, 0x40u16, 0x3Au16][0] == 0u16 && seq![0u16, 0x40u16, 0x3Au16][1] == 0x40u16);
        } else if j == pl {
        } else if j < pos + al {
            assert(t[j] == a[j - pos]);
            assert(!seq![0u16, 0x40u16, 0x5Bu16].contains(a[j - pos]));
            assert(seq![0u16, 0x40u16, 0x5Bu16][0] == 0u16 && seq![0u16, 0x40u16, 0x5Bu16][1] == 0x40u16);
        } else {
            let q = j - (pos + al);
            assert(t[j] == bracketed(e, o)[q]);
            if q == 0 {
            } else if q < 1 + el {
                assert(bracketed(e, o)[q] == es[q - 1]);
                assert(!seq![0u16, 0x40u16, 0x2Cu16, 0x5Du16].contains(es[q - 1]));
                assert(seq![0u16, 0x40u16, 0x2Cu16, 0x5Du16][0] == 0u16 && seq![0u16, 0x40u16, 0x2Cu16, 0x5Du16][1] == 0x40u16);
            } else if o is Some && q == 1 + el {
            } else if o is Some && q < 2 + el + ol {
                assert(bracketed(e, o)[q] == os[q - 2 - el]);
                assert(!seq![0u16, 0x40u16, 0x5Du16].contains(os[q - 2 - el]));
                assert(seq![0u16, 0x40u16, 0x5Du16][0] == 0u16 && seq![0u16, 0x40u16, 0x5Du16][1] == 0x40u16);
            } else {
            }
        }
    }
    assert(t[len] == 0u16);
    lemma_wlen_unique(t, len);
    lemma_find_none(t, 0x40u16, 0, len);
    // the colon after the protocol sequence
    assert forall|j: int| 0 <= j < pl implies #[trigger] t[j] != 0x3Au16 by {
        assert(t[j] == p[j]);
        assert(!seq![0u16, 0x40u16, 0x3Au16].contains(p[j]));
        assert(seq![0u16, 0x40u16, 0x3Au16][2] == 0x3Au16);
    }
    lemma_find_at(t, 0x3Au16, 0, len, pl);
    assert(t.subrange(0, pl) =~= p);
    // the address runs to the bracket, or to the end
    assert forall|j: int| pos <= j < pos + al implies #[trigger] t[j] != 0x5Bu16 by {
        assert(t[j] == a[j - pos]);
        assert(!seq![0u16, 0x40u16, 0x5Bu16].contains(a[j - pos]));
        assert(seq![0u16, 0x40u16, 0x5Bu16][2] == 0x5Bu16);
    }
    assert(t.subrange(pos, pos + al) =~= a);
    if !brackets {
        lemma_find_none(t, 0x5Bu16, pos, len);
        assert(es =~= Seq::<u16>::empty() && os =~= Seq::<u16>::empty());
    } else {
        let b = pos + al;
        assert(t[b] == 0x5Bu16);
        lemma_find_at(t, 0x5Bu16, pos, len, b);
        let close = b + 1 + el + if o is Some { ol + 1 } else { 0 };
        assert(close == len - 1);
        assert(t[close] == 0x5Du16);
        assert forall|j: int| b + 1 <= j < close implies #[trigger] t[j] != 0x5Du16 by {
            let q = j - b;
            assert(t[j] == bracketed(e, o)[q]);
            if q < 1 + el {
                assert(bracketed(e, o)[q] == es[q - 1]);
                assert(!seq![0u16, 0x40u16, 0x2Cu16, 0x5Du16].contains(es[q - 1]));
                assert(seq![0u16, 0x40u16, 0x2Cu16, 0x5Du16][3] == 0x5Du16);
            } else if q == 1 + el {
                assert(o is Some);
            } else {
                assert(o is Some);
                assert(bracketed(e, o)[q] == os[q - 2 - el]);
                assert(!seq![0u16, 0x40u16, 0x5Du16].contains(os[q - 2 - el]));
                assert(seq![0u16, 0x40u16, 0x5Du16][2] == 0x5Du16);
            }
        }
        lemma_find_at(t, 0x5Du16, b + 1, len, close);
        assert forall|j: int| b + 1 <= j < b + 1 + el implies #[trigger] t[j] != 0x2Cu16 by {
            assert(t[j] == es[j - b - 1]);
            assert(!seq![0u16, 0x40u16, 0x2Cu16, 0x5Du16].contains(es[j - b - 1]));
            assert(seq![0u16, 0x40u16, 0x2Cu16, 0x5Du16][2] == 0x2Cu16);
        }
        assert(t.subrange(b + 1, b + 1 + el) =~= es);
        if o is Some {
            assert(t[b + 1 + el] == 0x2Cu16);
            lemma_find_at(t, 0x2Cu16, b + 1, close, b + 1 + el);
            assert(t.subrange(b + 2 + el, close) =~= os);
        } else {
            lemma_find_none(t, 0x2Cu16, b + 1, close);
            assert(os =~= Seq::<u16>::empty());
        }
    }
}

} // verus!
