use andromeda_transfer_direct_mini::http::Status;
use andromeda_transfer_direct_mini::server::file_set::FileSet;
use andromeda_transfer_direct_mini::server::shutdown::{refusal, Shutdown, ShutdownAction};
use andromeda_transfer_direct_mini::server::{AppConfig, AppState};
use std::collections::VecDeque;

#[test]
fn idle_server_stops_at_once() {
    let mut s = Shutdown::new();
    assert_eq!(s.action(), ShutdownAction::Serve);
    s.interrupt();
    assert_eq!(s.action(), ShutdownAction::SaveAndExit);
    assert!(!s.begin());
    assert_eq!(s, Shutdown { active: 0, stopping: true });
}

#[test]
fn interrupted_server_waits_for_its_transfers() {
    let mut s = Shutdown::new();
    assert!(s.begin());
    assert!(s.begin());
    assert_eq!(s.action(), ShutdownAction::Serve);
    s.interrupt();
    assert_eq!(s.action(), ShutdownAction::Wait);
    assert!(!s.begin());
    assert_eq!(s.active, 2);
    s.end();
    assert_eq!(s.action(), ShutdownAction::Wait);
    s.end();
    assert_eq!(s.action(), ShutdownAction::SaveAndExit);
}

#[test]
fn transfers_are_counted_up_to_the_limit() {
    let mut s = Shutdown { active: u64::MAX, stopping: false };
    assert!(!s.begin());
    s.end();
    assert!(s.begin());
    assert_eq!(s.active, u64::MAX);
}

#[test]
fn refusal_names_its_reason() {
    let r = refusal();
    assert_eq!(r.status, Status::ServiceUnavailable);
    assert_eq!(r.body, "Server is shutting down");
}

#[test]
fn saved_records_hold_the_transfers_that_finished() {
    let mut s =
        AppState::new(AppConfig::default(), FileSet::new(), FileSet::new(), VecDeque::new());
    assert_eq!(s.transfers, Shutdown::new());
    assert!(s.transfers.begin());
    s.transfers.interrupt();
    assert_eq!(s.transfers.action(), ShutdownAction::Wait);
    let _ = s.finish_download("/a".to_string(), Ok(vec![1]));
    s.transfers.end();
    assert_eq!(s.transfers.action(), ShutdownAction::SaveAndExit);
    assert_eq!(s.snapshots().0.content, "/a\n");
}
