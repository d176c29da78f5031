use acond::supervisor::{
    exit_code, keep_serving_after_peer_exit, shutdown_action, ExitKind, SupervisorAction,
};

#[test]
fn first_process_powers_off_the_machine() {
    assert_eq!(shutdown_action(true), SupervisorAction::PowerOff);
}

#[test]
fn nested_run_reports_to_parent() {
    assert_eq!(shutdown_action(false), SupervisorAction::ReportToParent);
}

#[test]
fn restricted_crash_does_not_tear_down_the_control_plane() {
    assert!(keep_serving_after_peer_exit(ExitKind::ServiceError));
    assert!(keep_serving_after_peer_exit(ExitKind::DowngradeFailure));
    // only an orderly shutdown of the peer ends supervision
    assert!(!keep_serving_after_peer_exit(ExitKind::CleanShutdown));
}

#[test]
fn exit_codes_are_zero_only_on_clean_shutdown() {
    assert_eq!(exit_code(ExitKind::CleanShutdown), 0);
    assert_eq!(exit_code(ExitKind::MountFailure), 1);
    assert_eq!(exit_code(ExitKind::ChannelFailure), 2);
    assert_eq!(exit_code(ExitKind::SplitFailure), 3);
    assert_eq!(exit_code(ExitKind::DowngradeFailure), 4);
    assert_eq!(exit_code(ExitKind::ServiceError), 5);
}
