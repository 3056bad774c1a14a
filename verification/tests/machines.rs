use filelocksmith::process::{PROCESS_PATH_ACCESS, PROCESS_TERMINATE, QUIT_EXIT_CODE};
use filelocksmith::system_info::{DEFAULT_BUFFER_SIZE, MAX_BUFFER_SIZE, STATUS_INFO_LENGTH_MISMATCH};
use filelocksmith::token::{
    enable_privilege, ERROR_NOT_ALL_ASSIGNED, LUID, SE_PRIVILEGE_ENABLED, TOKEN_ADJUST_PRIVILEGES, TOKEN_ELEVATION,
    TOKEN_QUERY,
};
use filelocksmith::{
    process_id, DebugPrivilegeRequest, ElevationCheck, ProcessAction, ProcessEvent, QueryAction, QuitProcesses,
    SafeHandle, SystemInformationQuery, TokenAction, TokenEvent, wide_nul,
};

fn is_open(a: &ProcessAction, id: u32) -> bool {
    matches!(a, ProcessAction::Open { process_id, desired_access, inherit_handle } if *process_id == id && *desired_access == PROCESS_TERMINATE && *inherit_handle == 0)
}

fn is_finish(a: &ProcessAction, v: bool) -> bool {
    matches!(a, ProcessAction::Finish { all_quit } if *all_quit == v)
}

#[test]
fn quitting_no_processes_succeeds() {
    let (_, a) = QuitProcesses::new(vec![]);
    assert!(is_finish(&a, true));
}

#[test]
fn quitting_processes_opens_terminates_and_closes_each() {
    let (mut q, a) = QuitProcesses::new(vec![100, 200]);
    assert!(is_open(&a, 100));
    let a = q.step(ProcessEvent::Opened { handle: 0x44 });
    assert!(matches!(a, ProcessAction::Terminate { exit_code } if exit_code == QUIT_EXIT_CODE));
    let a = q.step(ProcessEvent::Terminated { status: 1 });
    assert!(matches!(a, ProcessAction::Close));
    let a = q.step(ProcessEvent::Closed);
    assert!(is_open(&a, 200));
    let a = q.step(ProcessEvent::Opened { handle: 0x48 });
    let a = match a {
        ProcessAction::Terminate { .. } => q.step(ProcessEvent::Terminated { status: 1 }),
        _ => panic!("expected terminate"),
    };
    assert!(matches!(a, ProcessAction::Close));
    let a = q.step(ProcessEvent::Closed);
    assert!(is_finish(&a, true));
}

#[test]
fn a_process_that_does_not_open_fails_the_whole_quit() {
    let (mut q, a) = QuitProcesses::new(vec![100, 200]);
    assert!(is_open(&a, 100));
    let a = q.step(ProcessEvent::Opened { handle: 0 });
    assert!(is_open(&a, 200));
    let a = q.step(ProcessEvent::Opened { handle: 0x10 });
    assert!(matches!(a, ProcessAction::Terminate { .. }));
    q.step(ProcessEvent::Terminated { status: 1 });
    let a = q.step(ProcessEvent::Closed);
    assert!(is_finish(&a, false));
}

#[test]
fn a_failed_termination_fails_the_quit_but_still_closes() {
    let (mut q, _) = QuitProcesses::new(vec![7]);
    q.step(ProcessEvent::Opened { handle: 0x10 });
    let a = q.step(ProcessEvent::Terminated { status: 0 });
    assert!(matches!(a, ProcessAction::Close));
    let a = q.step(ProcessEvent::Closed);
    assert!(is_finish(&a, false));
}

#[test]
fn ids_that_do_not_fit_are_never_opened() {
    if usize::BITS > 32 {
        let big = (u32::MAX as usize) + 1;
        let (mut q, a) = QuitProcesses::new(vec![big, 8]);
        assert!(is_open(&a, 8));
        q.step(ProcessEvent::Opened { handle: 0x10 });
        q.step(ProcessEvent::Terminated { status: 1 });
        let a = q.step(ProcessEvent::Closed);
        assert!(is_finish(&a, false));
        assert_eq!(process_id(big), None);
    }
    assert_eq!(process_id(1234), Some(1234));
}

#[test]
fn unexpected_events_change_nothing() {
    let (mut q, _) = QuitProcesses::new(vec![5]);
    let a = q.step(ProcessEvent::Closed);
    assert!(is_open(&a, 5));
}

#[test]
fn buffer_doubles_on_length_mismatch_until_the_limit() {
    let (mut q, a) = SystemInformationQuery::new();
    assert!(matches!(a, QueryAction::Query { buffer_size } if buffer_size == DEFAULT_BUFFER_SIZE));
    let mut sizes = vec![DEFAULT_BUFFER_SIZE];
    loop {
        match q.on_status(STATUS_INFO_LENGTH_MISMATCH) {
            QueryAction::Query { buffer_size } => sizes.push(buffer_size),
            QueryAction::Failed => break,
            QueryAction::Succeeded => panic!("a mismatch is no success"),
        }
    }
    assert_eq!(sizes.len(), 15);
    assert_eq!(*sizes.last().unwrap(), MAX_BUFFER_SIZE);
    assert_eq!(sizes[1], 131072);
    assert_eq!(q.current_buffer_size(), MAX_BUFFER_SIZE);
}

#[test]
fn query_succeeds_on_a_non_negative_status_and_fails_on_others() {
    let (mut q, _) = SystemInformationQuery::new();
    assert!(matches!(q.on_status(0), QueryAction::Succeeded));
    assert!(matches!(q.on_status(0x103), QueryAction::Succeeded));
    assert!(matches!(q.on_status(-1073741790), QueryAction::Failed));
    assert_eq!(q.current_buffer_size(), DEFAULT_BUFFER_SIZE);
}

#[test]
fn elevation_requires_an_open_token_and_a_successful_query() {
    let (s, a) = ElevationCheck::start();
    assert!(matches!(a, TokenAction::OpenToken { desired_access } if desired_access == TOKEN_QUERY));
    let (s, a) = s.step(TokenEvent::TokenOpened { status: 1 });
    assert!(matches!(a, TokenAction::QueryElevation));
    let (s, a) = s.step(TokenEvent::ElevationQueried { status: 1, elevation: TOKEN_ELEVATION { TokenIsElevated: 1 } });
    assert!(matches!(a, TokenAction::CloseToken));
    let (_, a) = s.step(TokenEvent::TokenClosed);
    assert!(matches!(a, TokenAction::Finish { succeeded: true }));

    let (s, _) = ElevationCheck::start();
    let (_, a) = s.step(TokenEvent::TokenOpened { status: 0 });
    assert!(matches!(a, TokenAction::Finish { succeeded: false }));

    let (s, _) = ElevationCheck::start();
    let (s, _) = s.step(TokenEvent::TokenOpened { status: 1 });
    let (s, a) = s.step(TokenEvent::ElevationQueried { status: 1, elevation: TOKEN_ELEVATION { TokenIsElevated: 0 } });
    assert!(matches!(a, TokenAction::CloseToken));
    let (_, a) = s.step(TokenEvent::TokenClosed);
    assert!(matches!(a, TokenAction::Finish { succeeded: false }));
}

#[test]
fn debug_privilege_is_granted_only_when_fully_assigned() {
    let luid = LUID { LowPart: 20, HighPart: 0 };
    let (s, a) = DebugPrivilegeRequest::start();
    assert!(matches!(a, TokenAction::OpenToken { desired_access } if desired_access == TOKEN_ADJUST_PRIVILEGES));
    let (s, a) = s.step(TokenEvent::TokenOpened { status: 1 });
    match a {
        TokenAction::LookupPrivilege { on_local_system, name } => {
            assert!(on_local_system);
            assert_eq!(name.to_vec(), wide_nul(b"SeDebugPrivilege"));
        }
        _ => panic!("expected a lookup"),
    }
    let (s, a) = s.step(TokenEvent::PrivilegeLookedUp { status: 1, luid });
    match a {
        TokenAction::AdjustPrivileges { disable_all_privileges, new_state, buffer_length, previous_state_requested } => {
            assert_eq!(disable_all_privileges, 0);
            assert_eq!(buffer_length, 16);
            assert!(!previous_state_requested);
            assert_eq!(new_state.PrivilegeCount, 1);
            assert_eq!(new_state.Privileges[0].Luid.LowPart, 20);
            assert_eq!(new_state.Privileges[0].Attributes, SE_PRIVILEGE_ENABLED);
        }
        _ => panic!("expected an adjustment"),
    }
    let (s2, a) = s.step(TokenEvent::PrivilegesAdjusted { status: 1, last_error: 0 });
    assert!(matches!(a, TokenAction::CloseToken));
    let (_, a) = s2.step(TokenEvent::TokenClosed);
    assert!(matches!(a, TokenAction::Finish { succeeded: true }));

    let (s, _) = DebugPrivilegeRequest::start();
    let (s, _) = s.step(TokenEvent::TokenOpened { status: 1 });
    let (s, _) = s.step(TokenEvent::PrivilegeLookedUp { status: 1, luid });
    let (s, a) = s.step(TokenEvent::PrivilegesAdjusted { status: 1, last_error: ERROR_NOT_ALL_ASSIGNED });
    assert!(matches!(a, TokenAction::CloseToken));
    let (_, a) = s.step(TokenEvent::TokenClosed);
    assert!(matches!(a, TokenAction::Finish { succeeded: false }));
}

#[test]
fn failed_privilege_lookup_closes_the_token_and_fails() {
    let (s, _) = DebugPrivilegeRequest::start();
    let (s, _) = s.step(TokenEvent::TokenOpened { status: 1 });
    let (s, a) = s.step(TokenEvent::PrivilegeLookedUp { status: 0, luid: LUID { LowPart: 0, HighPart: 0 } });
    assert!(matches!(a, TokenAction::CloseToken));
    let (_, a) = s.step(TokenEvent::TokenClosed);
    assert!(matches!(a, TokenAction::Finish { succeeded: false }));

    let (s, _) = DebugPrivilegeRequest::start();
    let (_, a) = s.step(TokenEvent::TokenOpened { status: 0 });
    assert!(matches!(a, TokenAction::Finish { succeeded: false }));
}

#[test]
fn enable_privilege_builds_a_single_enabled_entry() {
    let tp = enable_privilege(LUID { LowPart: 7, HighPart: -2 });
    assert_eq!(tp.PrivilegeCount, 1);
    assert_eq!(tp.Privileges[0].Luid.HighPart, -2);
    assert_eq!(tp.Privileges[0].Attributes, 2);
}

#[test]
fn safe_handle_rejects_null_and_invalid_values() {
    assert!(SafeHandle::from_raw(0).is_none());
    assert!(SafeHandle::from_raw(-1).is_none());
    assert_eq!(SafeHandle::from_raw(0x1234).map(|h| h.raw()), Some(0x1234));
    assert!(SafeHandle::from_raw_file(-1).is_none());
    assert_eq!(SafeHandle::from_raw_file(0).map(|h| h.raw()), Some(0));
    assert_eq!(PROCESS_PATH_ACCESS, 0x0410);
}
