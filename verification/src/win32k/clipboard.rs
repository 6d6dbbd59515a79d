//! The clipboard: one shared slot of data in one format, opened and closed
//! by its owner, with a sequence number that counts its changes.

use vstd::prelude::*;

verus! {

pub const CF_TEXT: u32 = 1;
pub const CF_BITMAP: u32 = 2;
pub const CF_METAFILEPICT: u32 = 3;
pub const CF_SYLK: u32 = 4;
pub const CF_DIF: u32 = 5;
pub const CF_TIFF: u32 = 6;
pub const CF_OEMTEXT: u32 = 7;
pub const CF_DIB: u32 = 8;
pub const CF_PALETTE: u32 = 9;
pub const CF_UNICODETEXT: u32 = 13;
pub const CF_ENHMETAFILE: u32 = 14;

/// The most data the clipboard holds (1 MiB).
pub const MAX_CLIPBOARD_DATA: usize = 1024 * 1024;

/// A clipboard data entry: a format and the bytes in it.
pub struct ClipboardData {
    pub format: u32,
    pub size: usize,
    pub data: Vec<u8>,
}

/// The data the clipboard holds: its format and its bytes (`size` of
/// them).
pub struct ClipboardDataInner {
    pub format: u32,
    pub size: usize,
    pub data: Vec<u8>,
}

impl ClipboardDataInner {
    /// No data, format 0.
    pub fn new() -> (r: Self)
        ensures
            r.format == 0 && r.size == 0 && r.data@.len() == 0,
    {
        ClipboardDataInner { format: 0, size: 0, data: Vec::new() }
    }
}

/// Clipboard state.
pub struct ClipboardState {
    /// Whether the clipboard is open.
    pub is_open: bool,
    /// The window that opened it.
    pub owner: u64,
    /// Counts the changes of the clipboard.
    pub sequence: u64,
    /// The data held.
    pub data: ClipboardDataInner,
    /// Whether there is data.
    pub has_data: bool,
}

impl ClipboardState {
    /// A closed, empty clipboard with no owner and sequence number 0.
    pub fn new() -> (r: Self)
        ensures
            r.wf(),
            !r.is_open && r.owner == 0 && r.sequence == 0 && !r.has_data,
            r.data.format == 0 && r.data.size == 0,
    {
        ClipboardState { is_open: false, owner: 0, sequence: 0, data: ClipboardDataInner::new(), has_data: false }
    }

    /// The recorded size is the number of bytes held.
    pub open spec fn wf(&self) -> bool {
        self.data.size == self.data.data@.len()
    }

    /// The bytes held.
    pub open spec fn bytes(&self) -> Seq<u8> {
        self.data.data@
    }
}

/// Open the clipboard for window `owner`: false, with nothing changed,
/// when it is open already.
pub fn open_clipboard(clip: &mut ClipboardState, owner: u64) -> (r: bool)
    ensures
        r == !old(clip).is_open,
        r ==> final(clip).is_open && final(clip).owner == owner,
        !r ==> final(clip).is_open == old(clip).is_open && final(clip).owner == old(clip).owner,
        final(clip).sequence == old(clip).sequence && final(clip).has_data == old(clip).has_data,
        final(clip).data.format == old(clip).data.format && final(clip).data.size == old(clip).data.size,
        final(clip).bytes() == old(clip).bytes(),
{
    if clip.is_open {
        return false;
    }
    clip.is_open = true;
    clip.owner = owner;
    true
}

/// Close the clipboard, counting a change: false, with nothing changed,
/// when it is not open.
pub fn close_clipboard(clip: &mut ClipboardState) -> (r: bool)
    ensures
        r == old(clip).is_open,
        !final(clip).is_open,
        final(clip).sequence == if r { old(clip).sequence.wrapping_add(1) } else { old(clip).sequence },
        final(clip).owner == old(clip).owner && final(clip).has_data == old(clip).has_data,
        final(clip).data.format == old(clip).data.format && final(clip).data.size == old(clip).data.size,
        final(clip).bytes() == old(clip).bytes(),
{
    if !clip.is_open {
        return false;
    }
    clip.is_open = false;
    clip.sequence = clip.sequence.wrapping_add(1);
    true
}

/// Whether the clipboard is open.
pub fn is_open(clip: &ClipboardState) -> (r: bool)
    ensures
        r == clip.is_open,
{
    clip.is_open
}

/// The window that opened the clipboard.
pub fn get_owner(clip: &ClipboardState) -> (r: u64)
    ensures
        r == clip.owner,
{
    clip.owner
}

/// The clipboard's sequence number.
pub fn get_sequence_number(clip: &ClipboardState) -> (r: u64)
    ensures
        r == clip.sequence,
{
    clip.sequence
}

/// What `set_clipboard_data(format, data)` does to clipboard `a`, giving
/// `b` and `r`: on an open clipboard and data within the limit, the data
/// and format are stored and a change is counted; otherwise false and
/// nothing changes.
pub open spec fn clipboard_set_done(a: &ClipboardState, b: &ClipboardState, format: u32, data: Seq<u8>, r: bool) -> bool {
    &&& b.wf()
    &&& r == (a.is_open && data.len() <= MAX_CLIPBOARD_DATA)
    &&& r ==> b.has_data && b.data.format == format && b.bytes() == data
        && b.sequence == a.sequence.wrapping_add(1)
    &&& !r ==> b.has_data == a.has_data && b.data.format == a.data.format
        && b.bytes() == a.bytes() && b.sequence == a.sequence
    &&& b.is_open == a.is_open && b.owner == a.owner
}

/// Put `data` on the clipboard in `format`, counting a change: false, with
/// nothing changed, when the clipboard is not open or the data is larger
/// than [`MAX_CLIPBOARD_DATA`].
pub fn set_clipboard_data(clip: &mut ClipboardState, format: u32, data: &[u8]) -> (r: bool)
    requires
        old(clip).wf(),
    ensures
        clipboard_set_done(old(clip), final(clip), format, data@, r),
{
    if !clip.is_open {
        return false;
    }
    if data.len() > MAX_CLIPBOARD_DATA {
        return false;
    }
    let mut bytes: Vec<u8> = Vec::new();
    let mut i: usize = 0;
    while i < data.len()
        invariant
            i <= data@.len(),
            bytes@ == data@.take(i as int),
        decreases data@.len() - i,
    {
        bytes.push(data[i]);
        i = i + 1;
        assert(bytes@ =~= data@.take(i as int));
    }
    assert(data@.take(data@.len() as int) =~= data@);
    clip.data.format = format;
    clip.data.size = data.len();
    clip.data.data = bytes;
    clip.has_data = true;
    clip.sequence = clip.sequence.wrapping_add(1);
    true
}

/// What a request for `format` finds: the data, when there is data and
/// its format is `format` (or any format is asked for, with 0).
pub open spec fn clipboard_lookup(clip: &ClipboardState, format: u32) -> Option<Seq<u8>> {
    if clip.has_data && (clip.data.format == format || format == 0) { Some(clip.bytes()) } else { None }
}

/// The clipboard's data in `format` (0 for whatever format it holds).
pub fn get_clipboard_data(clip: &ClipboardState, format: u32) -> (r: Option<&[u8]>)
    requires
        clip.wf(),
    ensures
        match r {
            Some(d) => clipboard_lookup(clip, format) == Some(d@),
            None => clipboard_lookup(clip, format) is None,
        },
{
    if !clip.has_data {
        return None;
    }
    if clip.data.format != format && format != 0 {
        return None;
    }
    Some(clip.data.data.as_slice())
}

/// The format of the data held, or 0 when there is none.
pub fn get_clipboard_format(clip: &ClipboardState) -> (r: u32)
    ensures
        r == if clip.has_data { clip.data.format } else { 0 },
{
    if clip.has_data {
        clip.data.format
    } else {
        0
    }
}

/// There is data in `format` (in any format, for 0).
pub fn is_format_available(clip: &ClipboardState, format: u32) -> (r: bool)
    ensures
        r == (clip.has_data && (clip.data.format == format || format == 0)),
{
    if !clip.has_data {
        return false;
    }
    clip.data.format == format || format == 0
}

/// Drop the data, counting a change: false, with nothing changed, when the
/// clipboard is not open.
pub fn empty_clipboard(clip: &mut ClipboardState) -> (r: bool)
    requires
        old(clip).wf(),
    ensures
        final(clip).wf(),
        r == old(clip).is_open,
        r ==> !final(clip).has_data && final(clip).data.format == 0 && final(clip).data.size == 0
            && final(clip).sequence == old(clip).sequence.wrapping_add(1),
        !r ==> final(clip).has_data == old(clip).has_data && final(clip).data.format == old(clip).data.format
            && final(clip).bytes() == old(clip).bytes() && final(clip).sequence == old(clip).sequence,
        final(clip).is_open == old(clip).is_open && final(clip).owner == old(clip).owner,
{
    if !clip.is_open {
        return false;
    }
    clip.data.format = 0;
    clip.data.size = 0;
    clip.data.data = Vec::new();
    clip.has_data = false;
    clip.sequence = clip.sequence.wrapping_add(1);
    true
}

/// Data put on the clipboard is what a request for its format, or for
/// any format, finds afterwards.
pub proof fn lemma_set_then_get(a: &ClipboardState, b: &ClipboardState, format: u32, data: Seq<u8>)
    requires
        clipboard_set_done(a, b, format, data, true),
    ensures
        clipboard_lookup(b, format) == Some(data),
        clipboard_lookup(b, 0) == Some(data),
{
}

/// How many of the calls in `changed` changed the clipboard.
pub open spec fn change_count(changed: Seq<bool>) -> nat
    decreases changed.len(),
{
    if changed.len() == 0 {
        0
    } else {
        change_count(changed.drop_last()) + if changed.last() { 1nat } else { 0nat }
    }
}

/// Over a run of calls, where each call that changes the clipboard
/// (closing it, putting data on it or emptying it) moves the sequence
/// number on by one and every other call leaves it, the sequence number
/// at the end is the one at the start plus the number of changes, modulo
/// 2^64.
pub proof fn lemma_sequence_counts_changes(seqs: Seq<u64>, changed: Seq<bool>)
    requires
        seqs.len() == changed.len() + 1,
        forall|i: int| 0 <= i < changed.len() ==> #[trigger] seqs[i + 1]
            == if changed[i] { seqs[i].wrapping_add(1) } else { seqs[i] },
    ensures
        seqs.last() == (seqs[0] + change_count(changed)) % 0x1_0000_0000_0000_0000,
    decreases changed.len(),
{
    let m: int = 0x1_0000_0000_0000_0000;
    if changed.len() == 0 {
        let x: int = seqs[0] as int;
        assert(x % m == x) by (nonlinear_arith)
            requires
                0 <= x < m,
                m == 0x1_0000_0000_0000_0000int,
        ;
    } else {
        let n = changed.len();
        let s2 = seqs.drop_last();
        let c2 = changed.drop_last();
        assert forall|i: int| 0 <= i < c2.len() implies #[trigger] s2[i + 1]
            == if c2[i] { s2[i].wrapping_add(1) } else { s2[i] } by {
            assert(s2[i + 1] == seqs[i + 1] && s2[i] == seqs[i] && c2[i] == changed[i]);
        }
        lemma_sequence_counts_changes(s2, c2);
        let y = s2.last();
        let base = seqs[0] + change_count(c2);
        assert(y == base % m);
        assert(seqs[n as int] == if changed[n - 1] { y.wrapping_add(1) } else { y });
        if changed.last() {
            vstd::arithmetic::div_mod::lemma_add_mod_noop(base, 1, m);
            assert(1int % m == 1) by (nonlinear_arith)
                requires
                    m == 0x1_0000_0000_0000_0000int,
            ;
            assert((y + 1) % m == (base + 1) % m);
            if y + 1 == m {
                assert((y + 1) % m == 0) by (nonlinear_arith)
                    requires
                        y + 1 == m,
                        m > 0,
                ;
            } else {
                assert((y + 1) % m == y + 1) by (nonlinear_arith)
                    requires
                        0 <= y + 1 < m,
                ;
            }
        }
    }
}

/// After the open clipboard is emptied, no request finds data.
pub proof fn lemma_empty_then_get(after: &ClipboardState, format: u32)
    requires
        !after.has_data,
    ensures
        clipboard_lookup(after, format) is None,
{
}

} // verus!
