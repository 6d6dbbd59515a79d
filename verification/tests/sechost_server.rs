use nt61::sechost::types::{LastError, TRUE, FALSE, ERROR_SUCCESS, ERROR_INVALID_PARAMETER,
    ERROR_INVALID_HANDLE, ERROR_NOT_ENOUGH_MEMORY, ERROR_INSUFFICIENT_BUFFER, EVENTLOG_ERROR_TYPE,
    SERVICE_CONFIG_DESCRIPTION, SERVICE_CONFIG_DELAYED_AUTO_START_INFO};
use nt61::sechost::event::{EventLogTable, RegisterEventSourceW, DeregisterEventSource, ReportEventW, ClearEventLogW,
    MAX_EVENT_SOURCES};
use nt61::sechost::acl::{SetEntriesInAclW, GetExplicitEntriesFromAclW};
use nt61::sechost::token::CheckTokenMembership;
use nt61::sechost::service::{ChangeServiceConfig2W, QueryServiceConfig2W};
use nt61::server::explorer::{self, ExplorerState};
use nt61::server::lsass::{self, LsassState};
use nt61::smoke::{CaseCounter, smoke_test};

fn wide(s: &str) -> Vec<u16> {
    let mut v: Vec<u16> = s.encode_utf16().collect();
    v.push(0);
    v
}

fn narrow(v: &[u16]) -> String {
    let end = v.iter().position(|&c| c == 0).unwrap_or(v.len());
    String::from_utf16(&v[..end]).unwrap()
}

#[test]
fn event_sources_register_report_deregister() {
    let mut t = EventLogTable::new();
    let mut last = LastError::new();
    assert_eq!(RegisterEventSourceW(&mut t, &mut last, None, None), 0);
    assert_eq!(last.code, ERROR_INVALID_PARAMETER);
    let h = RegisterEventSourceW(&mut t, &mut last, Some(&wide("srv")), Some(&wide("App")));
    assert_eq!(h, 1);
    assert_eq!(narrow(&t.handles[0].source_name), "App");
    assert_eq!(narrow(&t.handles[0].server_name), "srv");
    let mut last2 = LastError::new();
    assert_eq!(ReportEventW(&t, &mut last2, h, EVENTLOG_ERROR_TYPE, 0, 1, 0, 0, 0, None, 0), TRUE);
    assert_eq!(last2.code, ERROR_SUCCESS);
    assert_eq!(ReportEventW(&t, &mut last2, h, 0x77, 0, 1, 0, 0, 0, None, 0), FALSE);
    assert_eq!(last2.code, ERROR_INVALID_PARAMETER);
    assert_eq!(ReportEventW(&t, &mut last2, h, EVENTLOG_ERROR_TYPE, 0, 1, 0, 1, 0, None, 0), FALSE);
    assert_eq!(ReportEventW(&t, &mut last2, 9, EVENTLOG_ERROR_TYPE, 0, 1, 0, 0, 0, None, 0), FALSE);
    assert_eq!(last2.code, ERROR_INVALID_HANDLE);
    assert_eq!(DeregisterEventSource(&mut t, &mut last2, h), TRUE);
    assert_eq!(DeregisterEventSource(&mut t, &mut last2, h), FALSE);
    assert_eq!(last2.code, ERROR_INVALID_HANDLE);
    assert_eq!(ClearEventLogW(&mut last2, 0, None), FALSE);
}

#[test]
fn event_table_fills_up() {
    let mut t = EventLogTable::new();
    let mut last = LastError::new();
    for i in 0..MAX_EVENT_SOURCES {
        assert_eq!(RegisterEventSourceW(&mut t, &mut last, None, Some(&wide("S"))), (i + 1) as u64);
    }
    assert_eq!(RegisterEventSourceW(&mut t, &mut last, None, Some(&wide("S"))), 0);
    assert_eq!(last.code, ERROR_NOT_ENOUGH_MEMORY);
}

#[test]
fn acl_and_token_answers() {
    let mut new_acl = 5u64;
    assert_eq!(SetEntriesInAclW(0, None, None, Some(&mut new_acl)), ERROR_SUCCESS);
    assert_eq!(new_acl, 0);
    assert_eq!(SetEntriesInAclW(1, None, None, Some(&mut new_acl)), ERROR_INVALID_PARAMETER);
    assert_eq!(SetEntriesInAclW(0, None, None, None), ERROR_INVALID_PARAMETER);
    let mut count = 3u32;
    let mut list = 4u64;
    assert_eq!(GetExplicitEntriesFromAclW(None, Some(&mut count), Some(&mut list)), ERROR_SUCCESS);
    assert_eq!((count, list), (0, 0));
    let mut last = LastError::new();
    let mut member = TRUE;
    assert_eq!(CheckTokenMembership(&mut last, 1, 0x10, Some(&mut member)), TRUE);
    assert_eq!(member, FALSE);
    assert_eq!(CheckTokenMembership(&mut last, 1, 0, Some(&mut member)), FALSE);
    assert_eq!(last.code, ERROR_INVALID_PARAMETER);
}

#[test]
fn service_configuration() {
    let mut last = LastError::new();
    assert_eq!(ChangeServiceConfig2W(&mut last, 0, 1, 1), FALSE);
    assert_eq!(last.code, ERROR_INVALID_HANDLE);
    assert_eq!(ChangeServiceConfig2W(&mut last, 1, 99, 1), FALSE);
    assert_eq!(last.code, ERROR_INVALID_PARAMETER);
    let mut last = LastError::new();
    assert_eq!(ChangeServiceConfig2W(&mut last, 1, SERVICE_CONFIG_DESCRIPTION, 1), TRUE);
    let mut buf = [0xFFu8; 16];
    let mut needed = 0u32;
    assert_eq!(QueryServiceConfig2W(&mut last, 1, SERVICE_CONFIG_DELAYED_AUTO_START_INFO, Some(&mut buf), 16, Some(&mut needed)), TRUE);
    assert_eq!(needed, 4);
    assert_eq!(&buf[..5], &[0, 0, 0, 0, 0xFF]);
    assert_eq!(QueryServiceConfig2W(&mut last, 1, SERVICE_CONFIG_DESCRIPTION, Some(&mut buf), 4, Some(&mut needed)), FALSE);
    assert_eq!(needed, 8);
    assert_eq!(last.code, ERROR_INSUFFICIENT_BUFFER);
}

#[test]
fn server_smoke_tests_pass_after_init() {
    let mut e = ExplorerState::new();
    let mut l = LsassState::new();
    explorer::init(&mut e);
    lsass::init(&mut l);
    assert!(explorer::smoke_test(&e));
    assert!(lsass::smoke_test(&l));
    let mut counter = CaseCounter::new();
    assert!(smoke_test(&mut counter, &e, &l));
    assert_eq!(counter.count, 8);
    assert!(!smoke_test(&mut counter, &ExplorerState::new(), &l));
}
