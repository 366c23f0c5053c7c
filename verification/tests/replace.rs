//! Making way for a new sandbox, and rolling a failed one back.

use microsandbox::catalog::TerminationReason;
use microsandbox::error::{MicrosandboxError, MicrosandboxResult};
use microsandbox::host::{IoError, IoErrorKind};
use microsandbox::replace::{
    check_create_target, fail_runs, obstacle_error, own_agent_socket, rollback_pending_error,
    rootless_error, runtime_endpoints, sandbox_runtime_endpoint_is_live, signalled_run,
    EndpointProbe, Obstacle, RollbackEvent, RollbackStep, RunRow, SocketPaths, StopOldEvent,
    StopOldStep, TargetEvent, TargetStep, TransitionEvent, TransitionStep, TRANSITION_POLL_MS,
};
use microsandbox::types::SandboxStatus;

fn text<T>(r: MicrosandboxResult<T>) -> String {
    match r {
        Ok(_) => panic!("accepted"),
        Err(e) => e.message(),
    }
}

fn target(replace: bool, events: &[TargetEvent]) -> TargetStep {
    let mut step = TargetStep::start(replace);
    for event in events {
        step = step.advance(*event);
    }
    step
}

#[test]
fn test_prepare_create_target_rejects_existing_state_without_force() {
    assert_eq!(target(false, &[TargetEvent::Found(true)]), TargetStep::Taken);
    assert_eq!(target(false, &[TargetEvent::Found(false)]), TargetStep::Ready);
    let error = check_create_target("existing", false, true);
    assert!(text(error).contains("already exists"));
    assert_eq!(
        text(check_create_target("existing", true, false)),
        "sandbox 'existing' already exists; remove it, start the stopped sandbox, or recreate with .replace()"
    );
    assert!(check_create_target("existing", false, false).is_ok());
}

#[test]
fn test_prepare_create_target_force_replaces_stopped_sandbox_state() {
    let done = TargetEvent::Done;
    let mut step = target(
        true,
        &[TargetEvent::Found(true), TargetEvent::Status(SandboxStatus::Stopped)],
    );
    let mut seen = vec![step];
    for event in [done, done, TargetEvent::Live(false), done, done, done] {
        step = step.advance(event);
        seen.push(step);
    }
    assert_eq!(
        seen,
        vec![
            TargetStep::LockLineage { recorded: true },
            TargetStep::TakeLifecycle { recorded: true },
            TargetStep::JudgeRuntime,
            TargetStep::RemoveSockets { recorded: true },
            TargetStep::RemoveStorage { recorded: true },
            TargetStep::DeleteRecord,
            TargetStep::Ready,
        ]
    );
}

#[test]
fn test_prepare_create_target_force_replaces_stale_running_sandbox_state() {
    // The dead process was found by bringing the record up to date: there is nothing to stop.
    let step = target(
        true,
        &[TargetEvent::Found(true), TargetEvent::Status(SandboxStatus::Crashed)],
    );
    assert_eq!(step, TargetStep::LockLineage { recorded: true });
}

fn stop(events: &[StopOldEvent], grace_ms: u64) -> StopOldStep {
    let mut step = StopOldStep::Identify;
    for event in events {
        step = step.advance(*event, grace_ms);
    }
    step
}

#[test]
fn test_prepare_create_target_force_replaces_running_sandbox() {
    for status in [SandboxStatus::Running, SandboxStatus::Draining, SandboxStatus::Paused] {
        let step = target(true, &[TargetEvent::Found(true), TargetEvent::Status(status)]);
        assert_eq!(step, TargetStep::StopOld);
        assert_eq!(step.advance(TargetEvent::Done), TargetStep::LockLineage { recorded: true });
    }
    // Without time to terminate by itself, the runtime is killed right away.
    let done = StopOldEvent::Done;
    let killed = stop(&[StopOldEvent::Identified(true)], 0);
    assert_eq!(killed, StopOldStep::Kill);
    let observed = killed.advance(done, 0).advance(done, 0);
    assert_eq!(observed, StopOldStep::ObserveExit);
    let marked = observed.advance(StopOldEvent::Exited(true), 0);
    assert_eq!(marked, StopOldStep::MarkStopped);
    assert_eq!(marked.advance(done, 0), StopOldStep::Stopped);
    assert_eq!(
        observed.advance(StopOldEvent::Exited(false), 0),
        StopOldStep::StillAlive(Obstacle::SurvivedKill)
    );
    let run = RunRow { id: 3, sandbox_id: 1, ended: None };
    assert_eq!(signalled_run(run).ended, Some(TerminationReason::Signal));
}

#[test]
fn test_prepare_create_target_force_replace_leaves_a_recycled_pid_alone() {
    // A recycled PID identifies no process: none is signalled.
    let step = stop(&[StopOldEvent::Identified(false)], 10_000);
    assert_eq!(step, StopOldStep::ObserveOwner);
    assert_eq!(step.advance(StopOldEvent::Owned(false), 10_000), StopOldStep::MarkStopped);
    assert_eq!(
        step.advance(StopOldEvent::Owned(true), 10_000),
        StopOldStep::StillAlive(Obstacle::UnidentifiedOwner)
    );
}

#[test]
fn test_prepare_create_target_force_replace_terminates_runtime_older_than_its_run() {
    let step = stop(&[StopOldEvent::Identified(true)], 10_000);
    assert_eq!(step, StopOldStep::Terminate);
    // Failing to ask is no reason not to kill.
    assert_eq!(step.advance(StopOldEvent::Failed, 10_000), StopOldStep::AwaitGrace);
    let killed =
        step.advance(StopOldEvent::Done, 10_000).advance(StopOldEvent::Done, 10_000);
    assert_eq!(killed, StopOldStep::Kill);
    assert_eq!(killed.advance(StopOldEvent::Failed, 10_000), StopOldStep::Failed);
}

#[test]
fn live_sandboxes_are_not_replaced() {
    let judged = target(
        true,
        &[
            TargetEvent::Found(true),
            TargetEvent::Status(SandboxStatus::Stopped),
            TargetEvent::Done,
            TargetEvent::Done,
            TargetEvent::Live(true),
        ],
    );
    assert_eq!(judged, TargetStep::StillAlive(Obstacle::RecordedRuntime));
    assert_eq!(judged.advance(TargetEvent::Failed), judged);
    let probed = target(
        true,
        &[TargetEvent::Found(false), TargetEvent::Done, TargetEvent::Done, TargetEvent::Live(true)],
    );
    assert_eq!(probed, TargetStep::StillAlive(Obstacle::UntrackedEndpoint));
    let message = |o| obstacle_error("w", o).message();
    assert_eq!(
        message(Obstacle::RecordedRuntime),
        "cannot replace sandbox \"w\": its recorded runtime process is still alive"
    );
    assert_eq!(
        message(Obstacle::UntrackedEndpoint),
        "cannot replace sandbox \"w\": an untracked runtime endpoint is still live"
    );
    assert_eq!(
        message(Obstacle::SurvivedKill),
        "cannot replace sandbox \"w\": runtime did not exit after SIGKILL"
    );
    assert_eq!(
        message(Obstacle::UnidentifiedOwner),
        "cannot replace sandbox \"w\": its lifecycle lock is held by a runtime the recorded run does not identify"
    );
    assert!(matches!(
        obstacle_error("w", Obstacle::SurvivedKill),
        MicrosandboxError::SandboxStillRunning(_)
    ));
    assert_eq!(
        rootless_error("/").message(),
        "invalid config: sandbox directory has no storage root: /"
    );
}

#[test]
fn untracked_storage_is_removed_without_a_record() {
    let done = TargetEvent::Done;
    let step = target(
        true,
        &[TargetEvent::Found(false), done, done, TargetEvent::Live(false), done],
    );
    assert_eq!(step, TargetStep::RemoveStorage { recorded: false });
    assert_eq!(step.advance(done), TargetStep::Ready);
    assert_eq!(step.advance(TargetEvent::Failed), TargetStep::Failed);
}

#[test]
fn test_transition_guard_serializes_conflict_check_and_insert() {
    let mut step = TransitionStep::Try;
    for _ in 0..3 {
        step = step.advance(TransitionEvent::Locked(false));
        assert_eq!(step, TransitionStep::Sleep);
        step = step.advance(TransitionEvent::Slept);
    }
    assert_eq!(step.advance(TransitionEvent::Locked(true)), TransitionStep::Held);
    assert_eq!(step.advance(TransitionEvent::Failed), TransitionStep::Failed);
    assert_eq!(TRANSITION_POLL_MS, 10);
}

#[test]
fn untracked_runtime_probe_detects_listener_removal() {
    let missing = EndpointProbe::Missing;
    let failed = |kind| EndpointProbe::Failed(IoError { kind, raw: None });
    let live = vec![missing, missing, EndpointProbe::Connected, missing, missing, missing];
    assert_eq!(sandbox_runtime_endpoint_is_live(&live), Ok(true));
    let removed = vec![missing; 6];
    assert_eq!(sandbox_runtime_endpoint_is_live(&removed), Ok(false));
    let refused = vec![
        failed(IoErrorKind::ConnectionRefused),
        failed(IoErrorKind::NotFound),
        missing,
    ];
    assert_eq!(sandbox_runtime_endpoint_is_live(&refused), Ok(false));
    let denied = vec![missing, failed(IoErrorKind::PermissionDenied), EndpointProbe::Connected];
    assert_eq!(
        sandbox_runtime_endpoint_is_live(&denied),
        Err(IoError { kind: IoErrorKind::PermissionDenied, raw: None })
    );
}

#[test]
fn every_endpoint_is_tried() {
    let paths = SocketPaths {
        agent: "/run/a".into(),
        control: "/run/c".into(),
        legacy_agent: "/run/la".into(),
        legacy_control: "/run/lc".into(),
    };
    assert_eq!(own_agent_socket("/s/worker"), "/s/worker/runtime/agent.sock");
    assert_eq!(
        runtime_endpoints(paths, "/s/worker", "/s/worker/runtime/control.sock".into()),
        vec![
            "/run/a",
            "/run/c",
            "/run/la",
            "/run/lc",
            "/s/worker/runtime/agent.sock",
            "/s/worker/runtime/control.sock"
        ]
    );
}

// ------------------------------------------------------------------------------------------------
// Rolling back
// ------------------------------------------------------------------------------------------------

fn exercise_failed_startup_rollback(has_volumes: bool) {
    // While the runtime owns the name, nothing changes.
    let pending = RollbackStep::TakeLifecycle.advance(RollbackEvent::Locked(false), has_volumes);
    assert_eq!(pending, RollbackStep::Pending);
    assert!(rollback_pending_error("rollback-owner").message().contains("startup cleanup pending"));
    assert_eq!(
        rollback_pending_error("rollback-owner").message(),
        "startup cleanup pending: runtime still owns sandbox \"rollback-owner\""
    );

    // Once it does not, the runs come first.
    let mut step = RollbackStep::TakeLifecycle.advance(RollbackEvent::Locked(true), has_volumes);
    assert_eq!(step, RollbackStep::FailRuns);
    let mut runs = vec![
        RunRow { id: 1, sandbox_id: 7, ended: None },
        RunRow { id: 2, sandbox_id: 7, ended: Some(TerminationReason::Signal) },
        RunRow { id: 3, sandbox_id: 8, ended: None },
    ];
    fail_runs(&mut runs, 7);
    assert_eq!(runs[0].ended, Some(TerminationReason::Failed));
    assert_eq!(runs[1].ended, Some(TerminationReason::Signal));
    assert_eq!(runs[2].ended, None);

    step = step.advance(RollbackEvent::Done, has_volumes);
    if has_volumes {
        assert_eq!(step, RollbackStep::RemoveVolumes);
        step = step.advance(RollbackEvent::Done, has_volumes);
        assert_eq!(step, RollbackStep::DeleteRecord);
    } else {
        assert_eq!(step, RollbackStep::StopRecord);
    }
    assert_eq!(step.advance(RollbackEvent::Done, has_volumes), RollbackStep::RolledBack);
    assert_eq!(step.advance(RollbackEvent::Failed, has_volumes), RollbackStep::RolledBack);
}

#[test]
fn failed_startup_rollback_waits_for_runtime_before_stopping_record() {
    exercise_failed_startup_rollback(false);
}

#[test]
fn failed_startup_rollback_preserves_owned_volumes_then_reconciles_before_deletion() {
    exercise_failed_startup_rollback(true);
}

#[test]
fn post_readiness_rollback_preserves_live_row_restore_intent_and_storage() {
    // The same holds once the sandbox was published as running.
    exercise_failed_startup_rollback(false);
    exercise_failed_startup_rollback(true);
}
