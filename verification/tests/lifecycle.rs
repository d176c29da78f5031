use acond::control::{ControlPlane, StartResult, StopDecision, StopPoll};
use acond::errors::ApiError;
use acond::state::Phase;

#[test]
fn create_and_query() {
    let mut cp = ControlPlane::new();
    let p = cp.create_pod();
    assert_eq!(p, 0);
    let pod = cp.get_pod(p).unwrap();
    assert_eq!(pod.phase, Phase::Created);
    assert!(pod.present);

    let c = cp.create_container(p, 42, true).unwrap();
    assert_eq!(c, 0);
    let k = cp.get_container(c).unwrap();
    assert_eq!(k.phase, Phase::Created);
    assert_eq!(k.pod, p);
    assert_eq!(k.image, 42);
    assert!(k.required);
    assert_eq!(k.process, None);
    assert_eq!(k.exit_status, None);
}

#[test]
fn start_container_runs_pod() {
    let mut cp = ControlPlane::new();
    let p = cp.create_pod();
    let c = cp.create_container(p, 7, true).unwrap();
    let image = cp.begin_start(c).unwrap();
    assert_eq!(image, 7);
    // the pod runs as soon as a start is admitted
    assert_eq!(cp.get_pod(p).unwrap().phase, Phase::Running);
    let r = cp.finish_start(c, Some(100));
    assert_eq!(r, StartResult::Started);
    assert_eq!(cp.get_container(c).unwrap().phase, Phase::Running);
    assert_eq!(cp.get_container(c).unwrap().process, Some(100));
    assert_eq!(cp.get_pod(p).unwrap().phase, Phase::Running);
}

#[test]
fn stop_with_ignored_graceful_signal() {
    // The workload ignores the graceful signal; with a window of 5 the
    // container is force-terminated at 5, not before, and ends Stopped.
    let mut cp = ControlPlane::new();
    let p = cp.create_pod();
    let c = cp.create_container(p, 7, true).unwrap();
    cp.begin_start(c).unwrap();
    assert_eq!(cp.finish_start(c, Some(100)), StartResult::Started);

    let d = cp.stop_container(c, 0, 5).unwrap();
    assert!(matches!(d, StopDecision::Graceful { handle: 100, deadline: 5 }));
    assert_eq!(cp.get_container(c).unwrap().phase, Phase::Stopping);

    // before the deadline: keep waiting, no force-termination
    assert_eq!(cp.stop_poll(c, 3, None), StopPoll::Waiting);
    assert_eq!(cp.stop_poll(c, 4, None), StopPoll::Waiting);
    // at the deadline: force-terminate
    assert_eq!(cp.stop_poll(c, 5, None), StopPoll::ForceKill(100));
    // the forced exit is observed and recorded
    assert_eq!(cp.stop_poll(c, 6, Some(137)), StopPoll::Exited);
    let k = cp.get_container(c).unwrap();
    assert_eq!(k.phase, Phase::Stopped);
    assert_eq!(k.exit_status, Some(137));
}

#[test]
fn stop_is_idempotent() {
    let mut cp = ControlPlane::new();
    let p = cp.create_pod();
    let c = cp.create_container(p, 7, false).unwrap();
    cp.begin_start(c).unwrap();
    cp.finish_start(c, Some(100));
    cp.stop_container(c, 0, 5).unwrap();
    assert_eq!(cp.stop_poll(c, 1, Some(0)), StopPoll::Exited);

    // a second stop repeats the recorded outcome and changes nothing
    let again = cp.stop_container(c, 10, 99).unwrap();
    assert_eq!(
        again,
        StopDecision::AlreadyDone { phase: Phase::Stopped, exit_status: Some(0) }
    );
    let third = cp.stop_container(c, 1000, 1).unwrap();
    assert_eq!(third, again);
    assert_eq!(cp.get_container(c).unwrap().exit_status, Some(0));
}

#[test]
fn double_start_conflicts() {
    let mut cp = ControlPlane::new();
    let p = cp.create_pod();
    let c = cp.create_container(p, 7, true).unwrap();
    assert!(cp.begin_start(c).is_ok());
    // the second start on the same container is refused
    assert_eq!(cp.begin_start(c), Err(ApiError::StateConflict));
    // the first one completes normally
    assert_eq!(cp.finish_start(c, Some(3)), StartResult::Started);
    // and a third start on the now-running container is refused too
    assert_eq!(cp.begin_start(c), Err(ApiError::StateConflict));
}

#[test]
fn start_on_stopping_pod_conflicts() {
    let mut cp = ControlPlane::new();
    let p = cp.create_pod();
    let c = cp.create_container(p, 7, false).unwrap();
    // a start is admitted, so the pod runs and the start is in flight
    assert!(cp.begin_start(c).is_ok());
    // the pod begins stopping while the start is still in flight
    let handles = cp.stop_pod(p, 0, 5).unwrap();
    assert!(handles.is_empty());
    assert_eq!(cp.get_pod(p).unwrap().phase, Phase::Stopping);
    // starting under a stopping pod fails with a state conflict,
    // and the container remains Created
    assert_eq!(cp.begin_start(c), Err(ApiError::StateConflict));
    assert_eq!(cp.get_container(c).unwrap().phase, Phase::Created);
}

#[test]
fn superseded_start_fails_container() {
    let mut cp = ControlPlane::new();
    let p = cp.create_pod();
    let c = cp.create_container(p, 7, false).unwrap();
    cp.begin_start(c).unwrap();
    cp.stop_pod(p, 0, 5).unwrap();
    // the privileged setup succeeded, but the pod stopped meanwhile:
    // the caller is told to terminate the fresh process
    assert_eq!(cp.finish_start(c, Some(9)), StartResult::Superseded);
    assert_eq!(cp.get_container(c).unwrap().phase, Phase::Failed);
    // its only member is terminal and optional, so the stopping pod
    // resolves to Stopped
    assert_eq!(cp.get_pod(p).unwrap().phase, Phase::Stopped);
}

#[test]
fn failed_start_of_required_member_fails_pod() {
    let mut cp = ControlPlane::new();
    let p = cp.create_pod();
    let c = cp.create_container(p, 7, true).unwrap();
    cp.begin_start(c).unwrap();
    assert_eq!(cp.finish_start(c, None), StartResult::SetupFailed);
    assert_eq!(cp.get_container(c).unwrap().phase, Phase::Failed);
    assert_eq!(cp.get_pod(p).unwrap().phase, Phase::Failed);
}

#[test]
fn failed_start_of_optional_member_degrades_pod() {
    let mut cp = ControlPlane::new();
    let p = cp.create_pod();
    let c1 = cp.create_container(p, 7, false).unwrap();
    let c2 = cp.create_container(p, 8, true).unwrap();
    cp.begin_start(c2).unwrap();
    assert_eq!(cp.finish_start(c2, Some(5)), StartResult::Started);
    cp.begin_start(c1).unwrap();
    assert_eq!(cp.finish_start(c1, None), StartResult::SetupFailed);
    assert_eq!(cp.get_container(c1).unwrap().phase, Phase::Failed);
    // the optional member failed; the pod keeps running, degraded
    assert_eq!(cp.get_pod(p).unwrap().phase, Phase::Running);
}

#[test]
fn pod_stops_exactly_when_all_members_terminal() {
    let mut cp = ControlPlane::new();
    let p = cp.create_pod();
    let c1 = cp.create_container(p, 1, false).unwrap();
    let c2 = cp.create_container(p, 2, false).unwrap();
    cp.begin_start(c1).unwrap();
    cp.finish_start(c1, Some(11));
    cp.begin_start(c2).unwrap();
    cp.finish_start(c2, Some(22));

    let mut handles = cp.stop_pod(p, 0, 5).unwrap();
    handles.sort();
    assert_eq!(handles, vec![11, 22]);
    // members still active: the pod is Stopping, not Stopped
    assert_eq!(cp.get_pod(p).unwrap().phase, Phase::Stopping);
    assert_eq!(cp.stop_poll(c1, 1, Some(0)), StopPoll::Exited);
    // one member still active: still not Stopped
    assert_eq!(cp.get_pod(p).unwrap().phase, Phase::Stopping);
    assert_eq!(cp.stop_poll(c2, 2, Some(0)), StopPoll::Exited);
    // the last member ended: the pod is Stopped
    assert_eq!(cp.get_pod(p).unwrap().phase, Phase::Stopped);
}

#[test]
fn stop_pod_retires_idle_members() {
    let mut cp = ControlPlane::new();
    let p = cp.create_pod();
    let c1 = cp.create_container(p, 1, false).unwrap();
    let c2 = cp.create_container(p, 2, false).unwrap();
    cp.begin_start(c1).unwrap();
    cp.finish_start(c1, Some(11));
    // c2 never started; stopping the pod retires it directly
    let handles = cp.stop_pod(p, 0, 5).unwrap();
    assert_eq!(handles, vec![11]);
    assert_eq!(cp.get_container(c2).unwrap().phase, Phase::Stopped);
    assert_eq!(cp.get_container(c2).unwrap().exit_status, None);
    assert_eq!(cp.stop_poll(c1, 1, Some(0)), StopPoll::Exited);
    assert_eq!(cp.get_pod(p).unwrap().phase, Phase::Stopped);
}

#[test]
fn stop_of_never_started_container_retires_it() {
    let mut cp = ControlPlane::new();
    let p = cp.create_pod();
    let c = cp.create_container(p, 7, false).unwrap();
    let d = cp.stop_container(c, 0, 5).unwrap();
    assert_eq!(d, StopDecision::Retired);
    let k = cp.get_container(c).unwrap();
    assert_eq!(k.phase, Phase::Stopped);
    assert_eq!(k.exit_status, None);
}

#[test]
fn removal_flow_and_no_orphans() {
    let mut cp = ControlPlane::new();
    let p = cp.create_pod();
    let c1 = cp.create_container(p, 1, false).unwrap();
    let c2 = cp.create_container(p, 2, false).unwrap();
    cp.begin_start(c1).unwrap();
    cp.finish_start(c1, Some(11));
    cp.stop_pod(p, 0, 5).unwrap();
    cp.stop_poll(c1, 1, Some(0));
    assert_eq!(cp.get_pod(p).unwrap().phase, Phase::Stopped);

    // a pod with present members cannot be removed
    assert_eq!(cp.remove_pod(p), Err(ApiError::StateConflict));
    assert!(cp.remove_container(c1).is_ok());
    assert_eq!(cp.remove_pod(p), Err(ApiError::StateConflict));
    assert!(cp.remove_container(c2).is_ok());
    assert!(cp.remove_pod(p).is_ok());
    assert!(!cp.get_pod(p).unwrap().present);
    // a removed pod accepts nothing
    assert_eq!(cp.create_container(p, 3, false), Err(ApiError::NotFound));
}

#[test]
fn active_records_cannot_be_removed() {
    let mut cp = ControlPlane::new();
    let p = cp.create_pod();
    let c = cp.create_container(p, 1, false).unwrap();
    cp.begin_start(c).unwrap();
    cp.finish_start(c, Some(11));
    assert_eq!(cp.remove_container(c), Err(ApiError::StateConflict));
    assert_eq!(cp.remove_pod(p), Err(ApiError::StateConflict));
    cp.stop_container(c, 0, 5).unwrap();
    // a container in its graceful window cannot be removed either
    assert_eq!(cp.remove_container(c), Err(ApiError::StateConflict));
}

#[test]
fn unknown_identifiers_are_not_found() {
    let mut cp = ControlPlane::new();
    assert_eq!(cp.begin_start(3), Err(ApiError::NotFound));
    assert_eq!(cp.stop_container(3, 0, 5), Err(ApiError::NotFound));
    assert_eq!(cp.stop_pod(3, 0, 5).err(), Some(ApiError::NotFound));
    assert_eq!(cp.remove_container(3), Err(ApiError::NotFound));
    assert_eq!(cp.remove_pod(3), Err(ApiError::NotFound));
    assert_eq!(cp.create_container(3, 0, false), Err(ApiError::NotFound));
    assert!(cp.get_pod(3).is_none());
    assert!(cp.get_container(3).is_none());
}

#[test]
fn create_under_stopping_pod_conflicts() {
    let mut cp = ControlPlane::new();
    let p = cp.create_pod();
    let c = cp.create_container(p, 1, false).unwrap();
    cp.begin_start(c).unwrap();
    cp.finish_start(c, Some(11));
    cp.stop_pod(p, 0, 5).unwrap();
    assert_eq!(cp.create_container(p, 2, false), Err(ApiError::StateConflict));
}

#[test]
fn concurrent_stop_on_same_container_conflicts() {
    let mut cp = ControlPlane::new();
    let p = cp.create_pod();
    let c = cp.create_container(p, 1, false).unwrap();
    cp.begin_start(c).unwrap();
    cp.finish_start(c, Some(11));
    assert!(cp.stop_container(c, 0, 5).is_ok());
    // a stop is already under way: a second stop is a conflict
    assert_eq!(cp.stop_container(c, 1, 5), Err(ApiError::StateConflict));
    // a stop while a start is in flight is a conflict too
    let c2 = cp.create_container(p, 2, false).unwrap();
    cp.begin_start(c2).unwrap();
    assert_eq!(cp.stop_container(c2, 1, 5), Err(ApiError::StateConflict));
}

#[test]
fn list_members_reports_present_members() {
    let mut cp = ControlPlane::new();
    let p1 = cp.create_pod();
    let p2 = cp.create_pod();
    let c1 = cp.create_container(p1, 1, false).unwrap();
    let c2 = cp.create_container(p2, 2, false).unwrap();
    let c3 = cp.create_container(p1, 3, false).unwrap();
    assert_eq!(cp.list_members(p1), vec![c1, c3]);
    assert_eq!(cp.list_members(p2), vec![c2]);
    cp.stop_container(c1, 0, 5).unwrap();
    cp.remove_container(c1).unwrap();
    assert_eq!(cp.list_members(p1), vec![c3]);
    assert_eq!(cp.pod_count(), 2);
    assert_eq!(cp.container_count(), 3);
}

/// Every container that is Running belongs to a pod that is Running.
fn assert_running_members_have_running_pods(cp: &ControlPlane) {
    for c in 0..cp.container_count() {
        let k = cp.get_container(c).unwrap();
        if k.phase == Phase::Running {
            assert_eq!(cp.get_pod(k.pod).unwrap().phase, Phase::Running);
        }
    }
}

#[test]
fn running_container_always_under_running_pod() {
    // snapshot the ownership invariant at every step of a full lifecycle,
    // including the steps in the middle of multi-step starts and stops
    let mut cp = ControlPlane::new();
    assert_running_members_have_running_pods(&cp);
    let p = cp.create_pod();
    let c1 = cp.create_container(p, 1, false).unwrap();
    let c2 = cp.create_container(p, 2, true).unwrap();
    assert_running_members_have_running_pods(&cp);
    cp.begin_start(c1).unwrap();
    assert_running_members_have_running_pods(&cp);
    cp.finish_start(c1, Some(11));
    assert_running_members_have_running_pods(&cp);
    cp.begin_start(c2).unwrap();
    assert_running_members_have_running_pods(&cp);
    // the pod begins stopping while c2's start is still in flight
    cp.stop_pod(p, 0, 5).unwrap();
    assert_running_members_have_running_pods(&cp);
    // the late setup outcome cannot produce a running container under a
    // pod that is no longer running
    assert_eq!(cp.finish_start(c2, Some(22)), StartResult::Superseded);
    assert_running_members_have_running_pods(&cp);
    assert_eq!(cp.stop_poll(c1, 1, Some(0)), StopPoll::Exited);
    assert_running_members_have_running_pods(&cp);
}
