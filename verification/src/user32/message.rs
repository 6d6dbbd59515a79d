//! Message queues: one queue of 128 slots per thread. Posting fills the
//! first free slot; reading scans the slots round from the read
//! position and takes the first message it meets.
//!
//! Waiting for a message happens outside: `GetMessageW` answers `None`
//! when the queue runs empty, and `WaitMessage` answers 0 while it is
//! empty; the caller waits and asks again.

use vstd::prelude::*;
use crate::user32::types::HWND;

verus! {

pub const WM_NULL: u32 = 0x0000;
pub const WM_CREATE: u32 = 0x0001;
pub const WM_DESTROY: u32 = 0x0002;
pub const WM_MOVE: u32 = 0x0003;
pub const WM_SIZE: u32 = 0x0005;
pub const WM_ACTIVATE: u32 = 0x0006;
pub const WM_SETFOCUS: u32 = 0x0007;
pub const WM_KILLFOCUS: u32 = 0x0008;
pub const WM_ENABLE: u32 = 0x000A;
pub const WM_PAINT: u32 = 0x000F;
pub const WM_CLOSE: u32 = 0x0010;
pub const WM_QUIT: u32 = 0x0012;
pub const WM_ERASEBKGND: u32 = 0x0014;
pub const WM_SHOWWINDOW: u32 = 0x0018;
pub const WM_ACTIVATEAPP: u32 = 0x001C;
pub const WM_SETCURSOR: u32 = 0x0020;
pub const WM_MOUSEACTIVATE: u32 = 0x0021;
pub const WM_GETMINMAXINFO: u32 = 0x0024;
pub const WM_NCCREATE: u32 = 0x0081;
pub const WM_NCDESTROY: u32 = 0x0082;
pub const WM_NCCALCSIZE: u32 = 0x0083;
pub const WM_NCHITTEST: u32 = 0x0084;
pub const WM_NCPAINT: u32 = 0x0085;
pub const WM_NCACTIVATE: u32 = 0x0086;
pub const WM_KEYDOWN: u32 = 0x0100;
pub const WM_KEYUP: u32 = 0x0101;
pub const WM_CHAR: u32 = 0x0102;
pub const WM_SYSKEYDOWN: u32 = 0x0104;
pub const WM_SYSKEYUP: u32 = 0x0105;
pub const WM_SYSCHAR: u32 = 0x0106;
pub const WM_COMMAND: u32 = 0x0111;
pub const WM_SYSCOMMAND: u32 = 0x0112;
pub const WM_TIMER: u32 = 0x0113;
pub const WM_MOUSEMOVE: u32 = 0x0200;
pub const WM_LBUTTONDOWN: u32 = 0x0201;
pub const WM_LBUTTONUP: u32 = 0x0202;
pub const WM_LBUTTONDBLCLK: u32 = 0x0203;
pub const WM_RBUTTONDOWN: u32 = 0x0204;
pub const WM_RBUTTONUP: u32 = 0x0205;
pub const WM_RBUTTONDBLCLK: u32 = 0x0206;
pub const WM_MBUTTONDOWN: u32 = 0x0207;
pub const WM_MBUTTONUP: u32 = 0x0208;
pub const WM_MBUTTONDBLCLK: u32 = 0x0209;
pub const WM_MOUSEWHEEL: u32 = 0x020A;
pub const WM_USER: u32 = 0x0400;

pub const PM_NOREMOVE: u32 = 0x0000;
pub const PM_REMOVE: u32 = 0x0001;
pub const PM_NOYIELD: u32 = 0x0002;

/// A screen point.
#[derive(Clone, Copy)]
pub struct POINT {
    pub x: i32,
    pub y: i32,
}

/// A queued message.
#[derive(Clone, Copy)]
pub struct MSG {
    pub hwnd: HWND,
    pub message: u32,
    pub wparam: usize,
    pub lparam: isize,
    pub time: u32,
    pub pt: POINT,
}

impl MSG {
    /// A message with every field zero.
    pub fn new() -> (r: Self)
        ensures
            r.hwnd == 0 && r.message == 0 && r.wparam == 0 && r.lparam == 0 && r.time == 0 && r.pt.x == 0 && r.pt.y == 0,
    {
        MSG { hwnd: 0, message: 0, wparam: 0, lparam: 0, time: 0, pt: POINT { x: 0, y: 0 } }
    }
}

/// A queue slot: a message, and whether the slot holds one.
#[derive(Clone, Copy)]
pub struct MessageEntry {
    pub msg: MSG,
    pub in_use: bool,
}

/// How many slots a queue has.
pub const MAX_MESSAGES: usize = 128;

/// How many thread queues there are.
pub const MAX_THREADS: usize = 64;

/// How many slots of `s` hold a message.
pub open spec fn count_in_use(s: Seq<MessageEntry>) -> nat
    decreases s.len(),
{
    if s.len() == 0 {
        0
    } else {
        count_in_use(s.drop_last()) + if s.last().in_use { 1nat } else { 0nat }
    }
}

proof fn lemma_count_in_use_update(s: Seq<MessageEntry>, i: int, x: MessageEntry)
    requires
        0 <= i < s.len(),
    ensures
        count_in_use(s.update(i, x)) + (if s[i].in_use { 1int } else { 0int })
            == count_in_use(s) + (if x.in_use { 1int } else { 0int }),
    decreases s.len(),
{
    if i < s.len() - 1 {
        lemma_count_in_use_update(s.drop_last(), i, x);
        assert(s.update(i, x).drop_last() =~= s.drop_last().update(i, x));
    } else {
        assert(s.update(i, x).drop_last() =~= s.drop_last());
    }
}

proof fn lemma_count_in_use_bounds(s: Seq<MessageEntry>)
    ensures
        count_in_use(s) <= s.len(),
        (forall|j: int| 0 <= j < s.len() ==> #[trigger] s[j].in_use) ==> count_in_use(s) == s.len(),
        (forall|j: int| 0 <= j < s.len() ==> !#[trigger] s[j].in_use) ==> count_in_use(s) == 0,
        count_in_use(s) == 0 ==> forall|j: int| 0 <= j < s.len() ==> !#[trigger] s[j].in_use,
    decreases s.len(),
{
    if s.len() > 0 {
        lemma_count_in_use_bounds(s.drop_last());
        if forall|j: int| 0 <= j < s.len() ==> #[trigger] s[j].in_use {
            assert forall|j: int| 0 <= j < s.drop_last().len() implies #[trigger] s.drop_last()[j].in_use by {
                assert(s[j].in_use);
            }
            assert(s[s.len() - 1].in_use);
        }
        if forall|j: int| 0 <= j < s.len() ==> !#[trigger] s[j].in_use {
            assert forall|j: int| 0 <= j < s.drop_last().len() implies !#[trigger] s.drop_last()[j].in_use by {
                assert(!s[j].in_use);
            }
            assert(!s[s.len() - 1].in_use);
        }
        if count_in_use(s) == 0 {
            assert forall|j: int| 0 <= j < s.len() implies !#[trigger] s[j].in_use by {
                if j < s.len() - 1 {
                    assert(!s.drop_last()[j].in_use);
                }
            }
        }
    }
}

/// A queue as a value: its slots, how many hold a message, and where
/// reading starts.
pub struct QueueModel {
    pub entries: Seq<MessageEntry>,
    pub count: nat,
    pub read_pos: int,
}

/// One thread's message queue.
pub struct MessageQueue {
    pub messages: Vec<MessageEntry>,
    pub count: usize,
    pub read_pos: usize,
}

/// The first offset from `k` on, counted round from `read_pos`, of a slot
/// holding a message.
pub open spec fn first_offset(s: Seq<MessageEntry>, read_pos: int, k: int) -> Option<int>
    decreases 128 - k,
{
    if k >= 128 {
        None
    } else if s[(read_pos + k) % 128].in_use {
        Some(k)
    } else {
        first_offset(s, read_pos, k + 1)
    }
}

/// What reading the queue gives: the first message round from the read
/// position, and the queue after it (with that slot freed, the count one
/// lower, and reading moved past it, when `remove`); nothing when the
/// count is 0.
pub open spec fn peek_model(m: QueueModel, remove: bool) -> (QueueModel, Option<MSG>) {
    if m.count == 0 {
        (m, None)
    } else {
        match first_offset(m.entries, m.read_pos, 0) {
            None => (m, None),
            Some(k) => {
                let idx = (m.read_pos + k) % 128;
                let msg = m.entries[idx].msg;
                if remove {
                    (QueueModel {
                        entries: m.entries.update(idx, MessageEntry { in_use: false, ..m.entries[idx] }),
                        count: (m.count - 1) as nat,
                        read_pos: (idx + 1) % 128,
                    }, Some(msg))
                } else {
                    (m, Some(msg))
                }
            },
        }
    }
}

/// `j` is the first free slot.
pub open spec fn first_free_slot(s: Seq<MessageEntry>, j: int) -> bool {
    0 <= j < s.len() && !s[j].in_use && forall|i: int| 0 <= i < j ==> #[trigger] s[i].in_use
}

impl MessageQueue {
    /// The queue as a value.
    pub open spec fn model(&self) -> QueueModel {
        QueueModel { entries: self.messages@, count: self.count as nat, read_pos: self.read_pos as int }
    }

    /// The queue has its slots, reads from one of them, and counts the
    /// ones in use.
    pub open spec fn wf(&self) -> bool {
        &&& self.messages@.len() == MAX_MESSAGES
        &&& self.read_pos < MAX_MESSAGES
        &&& self.count == count_in_use(self.messages@)
    }

    /// An empty queue.
    pub fn new() -> (r: Self)
        ensures
            r.wf(),
            r.count == 0,
    {
        let mut messages: Vec<MessageEntry> = Vec::new();
        let mut i: usize = 0;
        while i < MAX_MESSAGES
            invariant
                i <= MAX_MESSAGES,
                messages@.len() == i,
                count_in_use(messages@) == 0,
            decreases MAX_MESSAGES - i,
        {
            let e = MessageEntry { msg: MSG::new(), in_use: false };
            proof {
                assert(messages@.push(e).drop_last() =~= messages@);
            }
            messages.push(e);
            i = i + 1;
        }
        MessageQueue { messages, count: 0, read_pos: 0 }
    }

    /// Put a message in the first free slot: false, with nothing changed,
    /// when all are in use.
    pub fn post(&mut self, msg: MSG) -> (r: bool)
        requires
            old(self).wf(),
        ensures
            final(self).wf(),
            r == (old(self).count < MAX_MESSAGES),
            !r ==> final(self).model() == old(self).model(),
            r ==> exists|j: int| first_free_slot(old(self).messages@, j) && final(self).model() == (QueueModel {
                entries: old(self).messages@.update(j, MessageEntry { msg, in_use: true }),
                count: old(self).count as nat + 1,
                read_pos: old(self).read_pos as int,
            }),
    {
        if self.count >= MAX_MESSAGES {
            return false;
        }
        let mut i: usize = 0;
        while i < MAX_MESSAGES
            invariant
                i <= MAX_MESSAGES,
                self.wf(),
                *self == *old(self),
                self.count < MAX_MESSAGES,
                forall|j: int| 0 <= j < i ==> #[trigger] self.messages@[j].in_use,
            decreases MAX_MESSAGES - i,
        {
            if !self.messages[i].in_use {
                let e = MessageEntry { msg, in_use: true };
                proof {
                    lemma_count_in_use_update(self.messages@, i as int, e);
                    assert(first_free_slot(old(self).messages@, i as int));
                }
                self.messages.set(i, e);
                self.count = self.count + 1;
                return true;
            }
            i = i + 1;
        }
        proof {
            lemma_count_in_use_bounds(self.messages@);
        }
        false
    }

    /// Read the first message round from the read position, taking it
    /// out when `remove`; nothing when the queue is empty.
    pub fn peek(&mut self, remove: bool) -> (r: Option<MSG>)
        requires
            old(self).wf(),
        ensures
            final(self).wf(),
            (final(self).model(), r) == peek_model(old(self).model(), remove),
            old(self).count > 0 ==> r is Some,
    {
        if self.count == 0 {
            return None;
        }
        let ghost m = self.model();
        let mut i: usize = 0;
        while i < MAX_MESSAGES
            invariant
                i <= MAX_MESSAGES,
                self.wf(),
                *self == *old(self),
                m == old(self).model(),
                self.count > 0,
                first_offset(m.entries, m.read_pos, 0) == first_offset(m.entries, m.read_pos, i as int),
                forall|k: int| 0 <= k < i ==> !#[trigger] m.entries[(m.read_pos + k) % 128].in_use,
            decreases MAX_MESSAGES - i,
        {
            let idx = (self.read_pos + i) % MAX_MESSAGES;
            if self.messages[idx].in_use {
                let msg = self.messages[idx].msg;
                if remove {
                    let e = MessageEntry { in_use: false, ..self.messages[idx] };
                    proof {
                        lemma_count_in_use_update(self.messages@, idx as int, e);
                    }
                    self.messages.set(idx, e);
                    self.count = self.count - 1;
                    self.read_pos = (idx + 1) % MAX_MESSAGES;
                }
                return Some(msg);
            }
            i = i + 1;
        }
        proof {
            assert forall|j: int| 0 <= j < 128 implies !#[trigger] m.entries[j].in_use by {
                let k = (j - m.read_pos + 128) % 128;
                assert((m.read_pos + k) % 128 == j);
                assert(!m.entries[(m.read_pos + k) % 128].in_use);
            }
            lemma_count_in_use_bounds(m.entries);
        }
        None
    }
}

/// The first offset of a slot in use is the one before which every slot
/// round from the read position is free.
proof fn lemma_first_offset_at(s: Seq<MessageEntry>, read_pos: int, k: int, j: int)
    requires
        0 <= j <= k < 128,
        s[(read_pos + k) % 128].in_use,
        forall|i: int| j <= i < k ==> !#[trigger] s[(read_pos + i) % 128].in_use,
    ensures
        first_offset(s, read_pos, j) == Some(k),
    decreases k - j,
{
    if j < k {
        lemma_first_offset_at(s, read_pos, k, j + 1);
    }
}

/// A message posted to an empty queue is the next one read.
pub proof fn lemma_post_then_peek(q: QueueModel, j: int, msg: MSG, remove: bool)
    requires
        q.entries.len() == MAX_MESSAGES,
        0 <= q.read_pos < MAX_MESSAGES,
        q.count == count_in_use(q.entries),
        q.count == 0,
        first_free_slot(q.entries, j),
    ensures
        peek_model(QueueModel {
            entries: q.entries.update(j, MessageEntry { msg, in_use: true }),
            count: q.count + 1,
            read_pos: q.read_pos,
        }, remove).1 == Some(msg),
{
    lemma_count_in_use_bounds(q.entries);
    let s = q.entries.update(j, MessageEntry { msg, in_use: true });
    let k = (j - q.read_pos + 128) % 128;
    assert((q.read_pos + k) % 128 == j);
    assert forall|i: int| 0 <= i < k implies !#[trigger] s[(q.read_pos + i) % 128].in_use by {
        assert((q.read_pos + i) % 128 != j);
    }
    lemma_first_offset_at(s, q.read_pos, k, 0);
}

/// The queues of all threads.
pub struct MessageQueues {
    pub queues: Vec<MessageQueue>,
}

impl MessageQueues {
    /// Every thread has a queue, and each is well formed.
    pub open spec fn wf(&self) -> bool {
        &&& self.queues@.len() == MAX_THREADS
        &&& forall|i: int| 0 <= i < MAX_THREADS ==> #[trigger] self.queues@[i].wf()
    }

    /// Empty queues for every thread.
    pub fn new() -> (r: Self)
        ensures
            r.wf(),
            forall|i: int| 0 <= i < MAX_THREADS ==> r.queues@[i].count == 0,
    {
        let mut queues: Vec<MessageQueue> = Vec::new();
        let mut i: usize = 0;
        while i < MAX_THREADS
            invariant
                i <= MAX_THREADS,
                queues@.len() == i,
                forall|j: int| 0 <= j < i ==> queues@[j].wf() && queues@[j].count == 0,
            decreases MAX_THREADS - i,
        {
            queues.push(MessageQueue::new());
            i = i + 1;
        }
        MessageQueues { queues }
    }

    /// The current thread's queue as a value.
    pub open spec fn current(&self) -> QueueModel {
        self.queues@[current_slot()].model()
    }

    /// Only the current thread's queue may have changed.
    pub open spec fn others_same(&self, other: &MessageQueues) -> bool {
        &&& other.queues@.len() == self.queues@.len()
        &&& forall|i: int| 0 <= i < self.queues@.len() && i != current_slot() ==> #[trigger] other.queues@[i] == self.queues@[i]
    }
}

/// The current thread's identifier: one thread runs here.
pub open spec fn current_thread_id() -> int {
    1
}

/// The queue slot of the current thread.
pub open spec fn current_slot() -> int {
    current_thread_id() % (MAX_THREADS as int)
}

/// The current thread's identifier.
pub fn get_current_thread_id() -> (r: usize)
    ensures
        r == current_thread_id(),
{
    1
}

fn take_current(queues: &mut MessageQueues) -> (r: MessageQueue)
    requires
        old(queues).wf(),
    ensures
        r == old(queues).queues@[current_slot()],
        final(queues).queues@ == old(queues).queues@.remove(current_slot()),
{
    let slot = get_current_thread_id() % MAX_THREADS;
    queues.queues.remove(slot)
}

fn put_current(queues: &mut MessageQueues, q: MessageQueue)
    requires
        old(queues).queues@.len() == MAX_THREADS - 1,
    ensures
        final(queues).queues@ == old(queues).queues@.insert(current_slot(), q),
{
    let slot = get_current_thread_id() % MAX_THREADS;
    queues.queues.insert(slot, q);
}

proof fn lemma_put_back(a: Seq<MessageQueue>, q: MessageQueue)
    requires
        a.len() == MAX_THREADS,
    ensures
        a.remove(current_slot()).insert(current_slot(), q) == a.update(current_slot(), q),
{
    assert(a.remove(current_slot()).insert(current_slot(), q) =~= a.update(current_slot(), q));
}

/// The message passes the window and range filters: any window for a
/// null one, and any message when both bounds are 0.
pub open spec fn msg_passes(msg: MSG, hwnd: HWND, min: u32, max: u32) -> bool {
    &&& (hwnd == 0 || msg.hwnd == hwnd)
    &&& ((min == 0 && max == 0) || (min <= msg.message <= max))
}

/// What `GetMessageW` does to a queue: take messages out until one passes
/// the filters (those that do not are dropped) or the queue runs empty;
/// the queue after, and the message that passed.
pub open spec fn get_model(m: QueueModel, hwnd: HWND, min: u32, max: u32) -> (QueueModel, Option<MSG>)
    decreases m.count,
{
    let (m2, r) = peek_model(m, true);
    match r {
        None => (m2, None),
        Some(msg) => if msg_passes(msg, hwnd, min, max) {
            (m2, Some(msg))
        } else if m2.count < m.count {
            get_model(m2, hwnd, min, max)
        } else {
            (m2, None)
        },
    }
}

/// A message handed back under a window filter and a range filter is for
/// that window (any, for 0) and, unless both bounds are 0, has a number
/// from `min` to `max`.
pub open spec fn within_filters(msg: MSG, hwnd: HWND, min: u32, max: u32) -> bool {
    &&& hwnd != 0 ==> msg.hwnd == hwnd
    &&& !(min == 0 && max == 0) ==> min <= msg.message && msg.message <= max
}

/// `PeekMessageW` reports a message (answers 1) only when it lies within
/// the filters, and never reports one otherwise.
pub proof fn lemma_peek_respects_filters(m: QueueModel, remove: bool, hwnd: HWND, min: u32, max: u32)
    ensures
        match peek_model(m, remove).1 {
            Some(msg) => msg_passes(msg, hwnd, min, max) <==> within_filters(msg, hwnd, min, max),
            None => true,
        },
{
}

/// The message `GetMessageW` takes out lies within the filters.
pub proof fn lemma_get_respects_filters(m: QueueModel, hwnd: HWND, min: u32, max: u32)
    ensures
        get_model(m, hwnd, min, max).1 matches Some(msg) ==> within_filters(msg, hwnd, min, max),
    decreases m.count,
{
    let (m2, r) = peek_model(m, true);
    if let Some(msg) = r {
        if !msg_passes(msg, hwnd, min, max) && m2.count < m.count {
            lemma_get_respects_filters(m2, hwnd, min, max);
        }
    }
}

/// Take the next message that passes the filters from the current
/// thread's queue, dropping those before it that do not: `Some(0)` for
/// `WM_QUIT`, `Some(1)` for any other, with the message written; `None`,
/// with nothing written, when the queue ran empty first (the caller
/// waits and asks again).
#[allow(non_snake_case)]
pub fn GetMessageW(queues: &mut MessageQueues, lp_msg: &mut MSG, h_wnd: HWND, w_msg_filter_min: u32, w_msg_filter_max: u32) -> (r: Option<i32>)
    requires
        old(queues).wf(),
    ensures
        final(queues).wf(),
        old(queues).others_same(final(queues)),
        final(queues).current() == get_model(old(queues).current(), h_wnd, w_msg_filter_min, w_msg_filter_max).0,
        match get_model(old(queues).current(), h_wnd, w_msg_filter_min, w_msg_filter_max).1 {
            None => r is None && *final(lp_msg) == *old(lp_msg),
            Some(msg) => r == Some(if msg.message == WM_QUIT { 0i32 } else { 1i32 }) && *final(lp_msg) == msg,
        },
{
    let ghost q0 = old(queues).queues@;
    let mut q = take_current(queues);
    let ghost target = get_model(q.model(), h_wnd, w_msg_filter_min, w_msg_filter_max);
    let mut result: Option<i32> = None;
    loop
        invariant_except_break
            q.wf(),
            get_model(q.model(), h_wnd, w_msg_filter_min, w_msg_filter_max) == target,
            *lp_msg == *old(lp_msg),
            result is None,
        ensures
            q.wf(),
            q.model() == target.0,
            match target.1 {
                None => result is None && *lp_msg == *old(lp_msg),
                Some(msg) => result == Some(if msg.message == WM_QUIT { 0i32 } else { 1i32 }) && *lp_msg == msg,
            },
        decreases q.count,
    {
        let ghost before = q.model();
        let got = q.peek(true);
        proof {
            assert(peek_model(before, true) == (q.model(), got));
        }
        match got {
            None => {
                assert(get_model(before, h_wnd, w_msg_filter_min, w_msg_filter_max) == (q.model(), None::<MSG>));
                break;
            },
            Some(msg) => {
                if (h_wnd == 0 || msg.hwnd == h_wnd)
                    && ((w_msg_filter_min == 0 && w_msg_filter_max == 0)
                        || (msg.message >= w_msg_filter_min && msg.message <= w_msg_filter_max)) {
                    assert(get_model(before, h_wnd, w_msg_filter_min, w_msg_filter_max) == (q.model(), Some(msg)));
                    *lp_msg = msg;
                    result = Some(if msg.message == WM_QUIT { 0 } else { 1 });
                    break;
                }
                assert(q.model().count < before.count);
                assert(get_model(before, h_wnd, w_msg_filter_min, w_msg_filter_max)
                    == get_model(q.model(), h_wnd, w_msg_filter_min, w_msg_filter_max));
            },
        }
    }
    put_current(queues, q);
    proof {
        lemma_put_back(q0, q);
        assert forall|i: int| 0 <= i < MAX_THREADS implies #[trigger] queues.queues@[i].wf() by {
            if i != current_slot() {
                assert(queues.queues@[i] == q0[i]);
            }
        }
    }
    result
}

/// Take the next message as `GetMessageW` does (the ANSI entry point).
#[allow(non_snake_case)]
pub fn GetMessageA(queues: &mut MessageQueues, lp_msg: &mut MSG, h_wnd: HWND, w_msg_filter_min: u32, w_msg_filter_max: u32) -> (r: Option<i32>)
    requires
        old(queues).wf(),
    ensures
        final(queues).wf(),
        old(queues).others_same(final(queues)),
        final(queues).current() == get_model(old(queues).current(), h_wnd, w_msg_filter_min, w_msg_filter_max).0,
        match get_model(old(queues).current(), h_wnd, w_msg_filter_min, w_msg_filter_max).1 {
            None => r is None && *final(lp_msg) == *old(lp_msg),
            Some(msg) => r == Some(if msg.message == WM_QUIT { 0i32 } else { 1i32 }) && *final(lp_msg) == msg,
        },
{
    GetMessageW(queues, lp_msg, h_wnd, w_msg_filter_min, w_msg_filter_max)
}

/// Look at the first message of the current thread's queue, taking it
/// out when the flags ask for `PM_REMOVE`: 1, with the message written,
/// when it passes the filters; else 0, with nothing written (a message
/// that fails them is still taken out when removing).
#[allow(non_snake_case)]
pub fn PeekMessageW(queues: &mut MessageQueues, lp_msg: &mut MSG, h_wnd: HWND, w_msg_filter_min: u32, w_msg_filter_max: u32,
    w_remove_msg: u32) -> (r: i32)
    requires
        old(queues).wf(),
    ensures
        final(queues).wf(),
        old(queues).others_same(final(queues)),
        final(queues).current() == peek_model(old(queues).current(), w_remove_msg & PM_REMOVE != 0).0,
        match peek_model(old(queues).current(), w_remove_msg & PM_REMOVE != 0).1 {
            Some(msg) => if msg_passes(msg, h_wnd, w_msg_filter_min, w_msg_filter_max) {
                r == 1 && *final(lp_msg) == msg
            } else {
                r == 0 && *final(lp_msg) == *old(lp_msg)
            },
            None => r == 0 && *final(lp_msg) == *old(lp_msg),
        },
{
    let ghost q0 = old(queues).queues@;
    let remove = (w_remove_msg & PM_REMOVE) != 0;
    let mut q = take_current(queues);
    let got = q.peek(remove);
    put_current(queues, q);
    proof {
        lemma_put_back(q0, q);
        assert forall|i: int| 0 <= i < MAX_THREADS implies #[trigger] queues.queues@[i].wf() by {
            if i != current_slot() {
                assert(queues.queues@[i] == q0[i]);
            }
        }
    }
    match got {
        None => 0,
        Some(msg) => {
            if h_wnd != 0 && msg.hwnd != h_wnd {
                return 0;
            }
            if w_msg_filter_min != 0 || w_msg_filter_max != 0 {
                if msg.message < w_msg_filter_min || msg.message > w_msg_filter_max {
                    return 0;
                }
            }
            *lp_msg = msg;
            1
        },
    }
}

/// Look at the first message as `PeekMessageW` does (the ANSI entry
/// point).
#[allow(non_snake_case)]
pub fn PeekMessageA(queues: &mut MessageQueues, lp_msg: &mut MSG, h_wnd: HWND, w_msg_filter_min: u32, w_msg_filter_max: u32,
    w_remove_msg: u32) -> (r: i32)
    requires
        old(queues).wf(),
    ensures
        final(queues).wf(),
        old(queues).others_same(final(queues)),
        final(queues).current() == peek_model(old(queues).current(), w_remove_msg & PM_REMOVE != 0).0,
        match peek_model(old(queues).current(), w_remove_msg & PM_REMOVE != 0).1 {
            Some(msg) => if msg_passes(msg, h_wnd, w_msg_filter_min, w_msg_filter_max) {
                r == 1 && *final(lp_msg) == msg
            } else {
                r == 0 && *final(lp_msg) == *old(lp_msg)
            },
            None => r == 0 && *final(lp_msg) == *old(lp_msg),
        },
{
    PeekMessageW(queues, lp_msg, h_wnd, w_msg_filter_min, w_msg_filter_max, w_remove_msg)
}

/// The message `PostMessageW` queues: time and point zero.
pub open spec fn posted(h_wnd: HWND, msg: u32, w_param: usize, l_param: isize) -> MSG {
    MSG { hwnd: h_wnd, message: msg, wparam: w_param, lparam: l_param, time: 0, pt: POINT { x: 0, y: 0 } }
}

/// The current queue after `m` is posted to it in slot `j`.
pub open spec fn posted_model(q: QueueModel, j: int, m: MSG) -> QueueModel {
    QueueModel { entries: q.entries.update(j, MessageEntry { msg: m, in_use: true }), count: q.count + 1, read_pos: q.read_pos }
}

/// Post a message to the current thread's queue: 1, with it in the first
/// free slot; 0, with nothing changed, when the queue is full.
#[allow(non_snake_case)]
pub fn PostMessageW(queues: &mut MessageQueues, h_wnd: HWND, msg: u32, w_param: usize, l_param: isize) -> (r: i32)
    requires
        old(queues).wf(),
    ensures
        final(queues).wf(),
        old(queues).others_same(final(queues)),
        r == (if old(queues).current().count < MAX_MESSAGES { 1i32 } else { 0i32 }),
        r == 0 ==> final(queues).current() == old(queues).current(),
        r == 1 ==> exists|j: int| first_free_slot(old(queues).current().entries, j)
            && final(queues).current() == #[trigger] posted_model(old(queues).current(), j, posted(h_wnd, msg, w_param, l_param)),
{
    let ghost q0 = old(queues).queues@;
    let message = MSG { hwnd: h_wnd, message: msg, wparam: w_param, lparam: l_param, time: 0, pt: POINT { x: 0, y: 0 } };
    let mut q = take_current(queues);
    let ok = q.post(message);
    put_current(queues, q);
    proof {
        lemma_put_back(q0, q);
        assert forall|i: int| 0 <= i < MAX_THREADS implies #[trigger] queues.queues@[i].wf() by {
            if i != current_slot() {
                assert(queues.queues@[i] == q0[i]);
            }
        }
        if ok {
            let j = choose|j: int| first_free_slot(q0[current_slot()].messages@, j) && q.model() == (QueueModel {
                entries: q0[current_slot()].messages@.update(j, MessageEntry { msg: message, in_use: true }),
                count: q0[current_slot()].count as nat + 1,
                read_pos: q0[current_slot()].read_pos as int,
            });
            assert(posted_model(old(queues).current(), j, posted(h_wnd, msg, w_param, l_param)) == q.model());
        }
    }
    if ok { 1 } else { 0 }
}

/// Post a message as `PostMessageW` does (the ANSI entry point).
#[allow(non_snake_case)]
pub fn PostMessageA(queues: &mut MessageQueues, h_wnd: HWND, msg: u32, w_param: usize, l_param: isize) -> (r: i32)
    requires
        old(queues).wf(),
    ensures
        final(queues).wf(),
        old(queues).others_same(final(queues)),
        r == (if old(queues).current().count < MAX_MESSAGES { 1i32 } else { 0i32 }),
        r == 0 ==> final(queues).current() == old(queues).current(),
        r == 1 ==> exists|j: int| first_free_slot(old(queues).current().entries, j)
            && final(queues).current() == #[trigger] posted_model(old(queues).current(), j, posted(h_wnd, msg, w_param, l_param)),
{
    PostMessageW(queues, h_wnd, msg, w_param, l_param)
}

/// Send a message: it is posted, and the answer is 0.
#[allow(non_snake_case)]
pub fn SendMessageW(queues: &mut MessageQueues, h_wnd: HWND, msg: u32, w_param: usize, l_param: isize) -> (r: isize)
    requires
        old(queues).wf(),
    ensures
        r == 0,
        final(queues).wf(),
        old(queues).others_same(final(queues)),
        old(queues).current().count >= MAX_MESSAGES ==> final(queues).current() == old(queues).current(),
        old(queues).current().count < MAX_MESSAGES ==> exists|j: int| first_free_slot(old(queues).current().entries, j)
            && final(queues).current() == #[trigger] posted_model(old(queues).current(), j, posted(h_wnd, msg, w_param, l_param)),
{
    let _ = PostMessageW(queues, h_wnd, msg, w_param, l_param);
    0
}

/// Send a message as `SendMessageW` does (the ANSI entry point).
#[allow(non_snake_case)]
pub fn SendMessageA(queues: &mut MessageQueues, h_wnd: HWND, msg: u32, w_param: usize, l_param: isize) -> (r: isize)
    requires
        old(queues).wf(),
    ensures
        r == 0,
        final(queues).wf(),
        old(queues).others_same(final(queues)),
        old(queues).current().count >= MAX_MESSAGES ==> final(queues).current() == old(queues).current(),
        old(queues).current().count < MAX_MESSAGES ==> exists|j: int| first_free_slot(old(queues).current().entries, j)
            && final(queues).current() == #[trigger] posted_model(old(queues).current(), j, posted(h_wnd, msg, w_param, l_param)),
{
    SendMessageW(queues, h_wnd, msg, w_param, l_param)
}

/// Dispatch a message: there is no window procedure to call; 0.
#[allow(non_snake_case)]
pub fn DispatchMessageW(lp_msg: Option<&MSG>) -> (r: isize)
    ensures
        r == 0,
{
    0
}

/// Dispatch a message as `DispatchMessageW` does (the ANSI entry point).
#[allow(non_snake_case)]
pub fn DispatchMessageA(lp_msg: Option<&MSG>) -> (r: isize)
    ensures
        r == 0,
{
    DispatchMessageW(lp_msg)
}

/// Translate a message: no character messages are made; 0.
#[allow(non_snake_case)]
pub fn TranslateMessage(lp_msg: Option<&MSG>) -> (r: i32)
    ensures
        r == 0,
{
    0
}

/// Ask the current thread to quit: post `WM_QUIT` with the exit code,
/// to no window.
#[allow(non_snake_case)]
pub fn PostQuitMessage(queues: &mut MessageQueues, n_exit_code: i32)
    requires
        old(queues).wf(),
    ensures
        final(queues).wf(),
        old(queues).others_same(final(queues)),
        old(queues).current().count >= MAX_MESSAGES ==> final(queues).current() == old(queues).current(),
        old(queues).current().count < MAX_MESSAGES ==> exists|j: int| first_free_slot(old(queues).current().entries, j)
            && final(queues).current() == #[trigger] posted_model(old(queues).current(), j,
                posted(0, WM_QUIT, n_exit_code as usize, 0)),
{
    let _ = PostMessageW(queues, 0, WM_QUIT, n_exit_code as usize, 0);
}

/// Whether a message waits in the current thread's queue: 1, or 0 while
/// it is empty (the caller waits and asks again).
#[allow(non_snake_case)]
pub fn WaitMessage(queues: &MessageQueues) -> (r: i32)
    requires
        queues.wf(),
    ensures
        r == (if queues.current().count > 0 { 1i32 } else { 0i32 }),
{
    let slot = get_current_thread_id() % MAX_THREADS;
    if queues.queues[slot].count > 0 { 1 } else { 0 }
}

} // verus!
