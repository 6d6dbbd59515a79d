//! Event logging: a table of 32 event sources. A source handle is its
//! slot plus one; 0 is null. Reported events are checked, not stored.

#![allow(non_snake_case)]

use vstd::prelude::*;
use crate::sechost::types::{DWORD, BOOL, WORD, HANDLE, PSID, EVENT_SOURCE_HANDLE, TRUE, FALSE, LastError, SetLastError,
    ERROR_INVALID_PARAMETER, ERROR_INVALID_HANDLE, ERROR_NOT_ENOUGH_MEMORY, EVENTLOG_SUCCESS, EVENTLOG_ERROR_TYPE,
    EVENTLOG_WARNING_TYPE, EVENTLOG_INFORMATION_TYPE, EVENTLOG_AUDIT_SUCCESS, EVENTLOG_AUDIT_FAILURE};
use crate::rpcrt4::wstr::{wlen, copied, is_wlen, lemma_wlen, lemma_wlen_unique};

verus! {

/// How many strings one event may carry at most.
pub const MAX_EVENT_STRINGS: usize = 256;

/// How many event sources the table holds.
pub const MAX_EVENT_SOURCES: usize = 32;

/// An event source: its name and server (terminated), and whether the
/// slot is in use.
#[derive(Clone, Copy)]
pub struct EventLogHandle {
    pub source_name: [u16; 256],
    pub server_name: [u16; 256],
    pub is_valid: bool,
}

/// The event sources, one per slot.
pub struct EventLogTable {
    pub handles: Vec<EventLogHandle>,
}

impl EventLogTable {
    /// No source registered.
    pub fn new() -> (r: Self)
        ensures
            r.handles@.len() == MAX_EVENT_SOURCES,
            forall|i: int| 0 <= i < MAX_EVENT_SOURCES ==> !(#[trigger] r.handles@[i]).is_valid,
    {
        let mut handles: Vec<EventLogHandle> = Vec::new();
        let mut i: usize = 0;
        while i < MAX_EVENT_SOURCES
            invariant
                i <= MAX_EVENT_SOURCES,
                handles@.len() == i,
                forall|j: int| 0 <= j < i ==> !(#[trigger] handles@[j]).is_valid,
            decreases MAX_EVENT_SOURCES - i,
        {
            handles.push(EventLogHandle { source_name: [0u16; 256], server_name: [0u16; 256], is_valid: false });
            i = i + 1;
        }
        EventLogTable { handles }
    }

    /// The table has its slots.
    pub open spec fn wf(&self) -> bool {
        self.handles@.len() == MAX_EVENT_SOURCES
    }

    /// Whether a handle names a source in use.
    pub open spec fn valid_handle(&self, h: u64) -> bool {
        1 <= h <= MAX_EVENT_SOURCES && self.handles@[h - 1].is_valid
    }
}

/// The first slot not in use.
pub open spec fn first_unused(s: Seq<EventLogHandle>, i: int) -> bool {
    0 <= i < s.len() && !s[i].is_valid && forall|j: int| 0 <= j < i ==> #[trigger] s[j].is_valid
}

/// How many units of a name are kept: up to 255.
pub open spec fn kept(s: Seq<u16>) -> int {
    if wlen(s) < 255 { wlen(s) } else { 255 }
}

/// The slot after source `source` (and server `server`, where given) is
/// registered in it.
pub open spec fn registered_source(old_slot: EventLogHandle, new_slot: EventLogHandle, server: Option<Seq<u16>>, source: Seq<u16>) -> bool {
    &&& new_slot.is_valid
    &&& new_slot.source_name@ == copied(old_slot.source_name@, source, kept(source))
    &&& new_slot.server_name@ == match server {
        Some(sv) => copied(old_slot.server_name@, sv, kept(sv)),
        None => old_slot.server_name@,
    }
}

/// Copy up to 255 units of the string in `src` into `dst`, and
/// terminate it.
fn copy_name(dst: &mut [u16; 256], src: &[u16])
    ensures
        final(dst)@ == copied(old(dst)@, src@, kept(src@)),
{
    proof {
        lemma_wlen(src@);
    }
    let mut j: usize = 0;
    while j < 255 && j < src.len() && src[j] != 0
        invariant
            j <= 255,
            j <= src@.len(),
            is_wlen(src@, wlen(src@)),
            forall|k: int| 0 <= k < j ==> #[trigger] src@[k] != 0u16,
            dst@.len() == 256,
            forall|k: int| 0 <= k < 256 ==> #[trigger] dst@[k] == if k < j { src@[k] } else { old(dst)@[k] },
        decreases 255 - j,
    {
        dst[j] = src[j];
        j = j + 1;
    }
    proof {
        if j < 255 {
            lemma_wlen_unique(src@, j as int);
        } else {
            assert(wlen(src@) >= 255) by {
                if wlen(src@) < 255 {
                    assert(src@[wlen(src@)] != 0u16);
                }
            }
        }
    }
    dst[j] = 0;
    proof {
        assert(dst@ =~= copied(old(dst)@, src@, kept(src@)));
    }
}

pub open spec fn opt_units(s: Option<&[u16]>) -> Option<Seq<u16>> {
    match s {
        Some(x) => Some(x@),
        None => None,
    }
}

/// Register an event source in the first slot not in use: its handle.
/// Without a source name the last error is `ERROR_INVALID_PARAMETER`,
/// and with every slot in use `ERROR_NOT_ENOUGH_MEMORY`; the answer is 0
/// then, with the table unchanged.
pub fn RegisterEventSourceW(table: &mut EventLogTable, last: &mut LastError, lpUNCServerName: Option<&[u16]>,
    lpSourceName: Option<&[u16]>) -> (r: EVENT_SOURCE_HANDLE)
    requires
        old(table).wf(),
    ensures
        final(table).wf(),
        lpSourceName is None ==> r == 0 && final(last).code == ERROR_INVALID_PARAMETER && final(table).handles@ == old(table).handles@,
        lpSourceName is Some && (forall|j: int| 0 <= j < MAX_EVENT_SOURCES ==> #[trigger] old(table).handles@[j].is_valid) ==>
            r == 0 && final(last).code == ERROR_NOT_ENOUGH_MEMORY && final(table).handles@ == old(table).handles@,
        r != 0 ==> lpSourceName is Some && first_unused(old(table).handles@, r - 1)
            && *final(last) == *old(last)
            && final(table).handles@ == old(table).handles@.update(r - 1, final(table).handles@[r - 1])
            && registered_source(old(table).handles@[r - 1], final(table).handles@[r - 1], opt_units(lpUNCServerName),
                lpSourceName.unwrap()@),
        lpSourceName is Some && (exists|j: int| 0 <= j < MAX_EVENT_SOURCES && !#[trigger] old(table).handles@[j].is_valid) ==> r != 0,
{
    let src = match lpSourceName {
        None => {
            SetLastError(last, ERROR_INVALID_PARAMETER);
            return 0;
        },
        Some(s) => s,
    };
    let mut i: usize = 0;
    while i < MAX_EVENT_SOURCES
        invariant
            i <= MAX_EVENT_SOURCES,
            table.wf(),
            table.handles@ == old(table).handles@,
            *last == *old(last),
            lpSourceName is Some && lpSourceName.unwrap()@ == src@,
            forall|j: int| 0 <= j < i ==> #[trigger] table.handles@[j].is_valid,
        decreases MAX_EVENT_SOURCES - i,
    {
        if !table.handles[i].is_valid {
            let mut h = table.handles[i];
            copy_name(&mut h.source_name, src);
            if let Some(sv) = lpUNCServerName {
                copy_name(&mut h.server_name, sv);
            }
            h.is_valid = true;
            table.handles.set(i, h);
            proof {
                assert(first_unused(old(table).handles@, i as int));
            }
            return (i + 1) as u64;
        }
        i = i + 1;
    }
    SetLastError(last, ERROR_NOT_ENOUGH_MEMORY);
    0
}

/// Take an event source out of use, clearing the first unit of its names
/// (`TRUE`); a null handle, or one that names no source in use, sets the
/// last error to `ERROR_INVALID_HANDLE` and answers `FALSE`, with nothing
/// changed.
pub fn DeregisterEventSource(table: &mut EventLogTable, last: &mut LastError, hEventLog: EVENT_SOURCE_HANDLE) -> (r: BOOL)
    requires
        old(table).wf(),
    ensures
        final(table).wf(),
        r == (if old(table).valid_handle(hEventLog) { TRUE } else { FALSE }),
        r == FALSE ==> final(last).code == ERROR_INVALID_HANDLE && final(table).handles@ == old(table).handles@,
        r == TRUE ==> *final(last) == *old(last) && final(table).handles@ == old(table).handles@.update(hEventLog - 1, EventLogHandle {
            is_valid: false,
            source_name: final(table).handles@[hEventLog - 1].source_name,
            server_name: final(table).handles@[hEventLog - 1].server_name,
        }) && final(table).handles@[hEventLog - 1].source_name@ == old(table).handles@[hEventLog - 1].source_name@.update(0, 0u16)
            && final(table).handles@[hEventLog - 1].server_name@ == old(table).handles@[hEventLog - 1].server_name@.update(0, 0u16),
{
    if hEventLog == 0 || hEventLog > MAX_EVENT_SOURCES as u64 {
        SetLastError(last, ERROR_INVALID_HANDLE);
        return FALSE;
    }
    let index = (hEventLog - 1) as usize;
    if !table.handles[index].is_valid {
        SetLastError(last, ERROR_INVALID_HANDLE);
        return FALSE;
    }
    let mut h = table.handles[index];
    h.is_valid = false;
    h.source_name[0] = 0;
    h.server_name[0] = 0;
    table.handles.set(index, h);
    TRUE
}

/// An event type the log knows.
pub open spec fn known_event_type(t: WORD) -> bool {
    t == EVENTLOG_SUCCESS || t == EVENTLOG_ERROR_TYPE || t == EVENTLOG_WARNING_TYPE || t == EVENTLOG_INFORMATION_TYPE
        || t == EVENTLOG_AUDIT_SUCCESS || t == EVENTLOG_AUDIT_FAILURE
}

/// Report an event: `TRUE` for a source in use, a known type, at most 256
/// strings, and the strings given when there are any. Else `FALSE`, with
/// the last error `ERROR_INVALID_HANDLE` for the handle, or
/// `ERROR_INVALID_PARAMETER` for the rest, checked in that order.
pub fn ReportEventW(table: &EventLogTable, last: &mut LastError, hEventLog: EVENT_SOURCE_HANDLE, wType: WORD, wCategory: WORD,
    dwEventID: DWORD, lpUserSid: PSID, wNumStrings: WORD, dwDataSize: DWORD, lpStrings: Option<&[u64]>, lpRawData: u64) -> (r: BOOL)
    requires
        table.wf(),
    ensures
        !table.valid_handle(hEventLog) ==> r == FALSE && final(last).code == ERROR_INVALID_HANDLE,
        table.valid_handle(hEventLog) && (!known_event_type(wType) || wNumStrings > MAX_EVENT_STRINGS
            || (wNumStrings > 0 && lpStrings is None)) ==> r == FALSE && final(last).code == ERROR_INVALID_PARAMETER,
        table.valid_handle(hEventLog) && known_event_type(wType) && wNumStrings <= MAX_EVENT_STRINGS
            && !(wNumStrings > 0 && lpStrings is None) ==> r == TRUE && *final(last) == *old(last),
{
    if hEventLog == 0 || hEventLog > MAX_EVENT_SOURCES as u64 || !table.handles[(hEventLog - 1) as usize].is_valid {
        SetLastError(last, ERROR_INVALID_HANDLE);
        return FALSE;
    }
    if !(wType == EVENTLOG_SUCCESS || wType == EVENTLOG_ERROR_TYPE || wType == EVENTLOG_WARNING_TYPE
        || wType == EVENTLOG_INFORMATION_TYPE || wType == EVENTLOG_AUDIT_SUCCESS || wType == EVENTLOG_AUDIT_FAILURE) {
        SetLastError(last, ERROR_INVALID_PARAMETER);
        return FALSE;
    }
    if wNumStrings as usize > MAX_EVENT_STRINGS {
        SetLastError(last, ERROR_INVALID_PARAMETER);
        return FALSE;
    }
    if wNumStrings > 0 && lpStrings.is_none() {
        SetLastError(last, ERROR_INVALID_PARAMETER);
        return FALSE;
    }
    TRUE
}

/// Clear an event log: `TRUE`; a null handle sets the last error to
/// `ERROR_INVALID_HANDLE` and answers `FALSE`.
pub fn ClearEventLogW(last: &mut LastError, hEventLog: HANDLE, lpBackupFileName: Option<&[u16]>) -> (r: BOOL)
    ensures
        r == (if hEventLog == 0 { FALSE } else { TRUE }),
        hEventLog == 0 ==> final(last).code == ERROR_INVALID_HANDLE,
        hEventLog != 0 ==> *final(last) == *old(last),
{
    if hEventLog == 0 {
        SetLastError(last, ERROR_INVALID_HANDLE);
        return FALSE;
    }
    TRUE
}

/// Open an event log: it is registered as a source, as
/// `RegisterEventSourceW` does.
pub fn OpenEventLogW(table: &mut EventLogTable, last: &mut LastError, lpUNCServerName: Option<&[u16]>,
    lpSourceName: Option<&[u16]>) -> (r: HANDLE)
    requires
        old(table).wf(),
    ensures
        final(table).wf(),
        lpSourceName is None ==> r == 0 && final(last).code == ERROR_INVALID_PARAMETER && final(table).handles@ == old(table).handles@,
        lpSourceName is Some && (forall|j: int| 0 <= j < MAX_EVENT_SOURCES ==> #[trigger] old(table).handles@[j].is_valid) ==>
            r == 0 && final(last).code == ERROR_NOT_ENOUGH_MEMORY && final(table).handles@ == old(table).handles@,
        r != 0 ==> lpSourceName is Some && first_unused(old(table).handles@, r - 1)
            && *final(last) == *old(last)
            && final(table).handles@ == old(table).handles@.update(r - 1, final(table).handles@[r - 1])
            && registered_source(old(table).handles@[r - 1], final(table).handles@[r - 1], opt_units(lpUNCServerName),
                lpSourceName.unwrap()@),
        lpSourceName is Some && (exists|j: int| 0 <= j < MAX_EVENT_SOURCES && !#[trigger] old(table).handles@[j].is_valid) ==> r != 0,
{
    if lpSourceName.is_none() {
        SetLastError(last, ERROR_INVALID_PARAMETER);
        return 0;
    }
    RegisterEventSourceW(table, last, lpUNCServerName, lpSourceName)
}

/// Close an event log: it is deregistered, as `DeregisterEventSource`
/// does.
pub fn CloseEventLog(table: &mut EventLogTable, last: &mut LastError, hEventLog: HANDLE) -> (r: BOOL)
    requires
        old(table).wf(),
    ensures
        final(table).wf(),
        r == (if old(table).valid_handle(hEventLog) { TRUE } else { FALSE }),
        r == FALSE ==> final(last).code == ERROR_INVALID_HANDLE && final(table).handles@ == old(table).handles@,
        r == TRUE ==> *final(last) == *old(last)
            && final(table).handles@[hEventLog - 1].source_name@ == old(table).handles@[hEventLog - 1].source_name@.update(0, 0u16)
            && final(table).handles@[hEventLog - 1].server_name@ == old(table).handles@[hEventLog - 1].server_name@.update(0, 0u16)
            && !final(table).handles@[hEventLog - 1].is_valid
            && (forall|j: int| 0 <= j < MAX_EVENT_SOURCES && j != hEventLog - 1 ==> #[trigger] final(table).handles@[j] == old(table).handles@[j]),
{
    DeregisterEventSource(table, last, hEventLog)
}

/// Start the event-log entry points: nothing to set up.
pub fn init() {
}

} // verus!
