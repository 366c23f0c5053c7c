//! Starting, stopping, killing, draining, reconciling and listing sandboxes.

use microsandbox::agent_socket::LocalBackend;
use microsandbox::catalog::{
    compare_and_set_sandbox_status, decode_list_cursor, encode_list_cursor,
    ensure_local_identity, filter_sandbox_ids, list_page, load_active_pids, local_identity,
    mark_sandbox_draining_if_running, mark_sandbox_runtime_stale,
    mark_sandbox_stopped_for_replacement, stale_runtime_terminal_state,
    update_sandbox_active_config, update_sandbox_status, validate_start_state, LabelRow, RunPid,
    RuntimeRow, SandboxIdentity, TerminationReason, VmdkFact,
};
use microsandbox::error::{MicrosandboxError, MicrosandboxResult};
use microsandbox::identity::linux_start;
use microsandbox::lifecycle::{
    agent_drain_error, check_start, claim_error, keep_waiting, lost_claim_error,
    owner_gone_error, paused_stop_error, previous_runtime_error, recheck_start,
    unreleased_error, DrainEvent, DrainStep, KillEvent, KillStep, ShutdownEvent, ShutdownStep,
    StartEvent, StartStep, StopEvent, StopStep,
};
use microsandbox::listing::{
    list_sandbox_ids, load_active_run, load_latest_run, pair_pids, sandbox_handle_state,
    terminable_pid, RunModel, SandboxHandle, SandboxHandleInner, SandboxModel,
};
use microsandbox::reconcile::{
    drops_control_sessions, ReconcileEvent, ReconcileScope, ReconcileStep,
};
use microsandbox::replace::{TransitionEvent, TransitionStep};
use microsandbox::spawn::SpawnMode;
use microsandbox::types::{
    FlatClone, OciRootfsSource, RootDisk, RootfsSource, SandboxConfig, SandboxResources,
    SandboxSpec, SandboxStatus,
};

/// Milliseconds that a sandbox of the backends here gets to stop by itself.
const DEFAULT_STOP_TIMEOUT: u64 = 10_000;

fn text<T>(r: MicrosandboxResult<T>) -> String {
    match r {
        Ok(_) => panic!("accepted"),
        Err(e) => e.message(),
    }
}

fn config(name: &str, root_disk: Option<RootDisk>) -> SandboxConfig {
    SandboxConfig::new(SandboxSpec::new(
        name.into(),
        RootfsSource::Oci(OciRootfsSource {
            reference: "docker.io/library/alpine".into(),
            root_disk,
        }),
        SandboxResources { cpus: 1, memory_mib: 512, max_cpus: 1, max_memory_mib: 512 },
    ))
}

fn row(status: SandboxStatus) -> RuntimeRow {
    RuntimeRow { id: 1, status, network_slot: Some(11), has_active_config: true }
}

// ------------------------------------------------------------------------------------------------
// Policies
// ------------------------------------------------------------------------------------------------

#[test]
fn local_stop_policy_preserves_existing_escalation() {
    let backend = LocalBackend {
        run_dir: "/r".into(),
        sandboxes_dir: "/s".into(),
        volumes_dir: "/v".into(),
        socket_path_capacity: 108,
        stop_timeout_ms: DEFAULT_STOP_TIMEOUT,
    };
    assert_eq!(backend.default_stop_timeout(), DEFAULT_STOP_TIMEOUT);
    assert!(backend.should_force_kill_after_stop_timeout());
}

#[test]
fn pid_exit_probe_does_not_reap_child() {
    // A child that exited and was not reaped keeps its status line, in state Z. The probe reads the
    // line and nothing else, so the wait status stays with the child's owner.
    let alive = |state: &str| {
        let line = format!(
            "4321 (sh) {state} 1 4321 4321 0 -1 4194560 100 0 0 0 1 2 0 0 20 0 1 0 77 1000 10 0"
        );
        linux_start(&line).is_ok()
    };
    assert!(LocalBackend::pid_has_exited(alive("Z")));
    assert!(LocalBackend::pid_has_exited(alive("X")));
    assert!(!LocalBackend::pid_has_exited(alive("S")));
    assert!(!LocalBackend::pid_has_exited(alive("R")));
}

#[test]
fn windows_pids_are_not_negative() {
    assert_eq!(terminable_pid(7).ok(), Some(7));
    assert_eq!(text(terminable_pid(-7)), "invalid Windows pid: -7");
}

// ------------------------------------------------------------------------------------------------
// Lists
// ------------------------------------------------------------------------------------------------

#[test]
fn walks_show_every_sandbox_once() {
    let ids: Vec<i32> = (1..=11).rev().collect();
    for limit in 1..=12u32 {
        let mut seen: Vec<i32> = Vec::new();
        let mut cursor: Option<String> = None;
        loop {
            let (page, next) =
                list_sandbox_ids(&ids, cursor.as_deref(), &Vec::new(), &Vec::new(), limit)
                    .ok()
                    .unwrap();
            assert!(page.len() <= limit as usize);
            seen.extend(page);
            match next {
                Some(next) => cursor = Some(next),
                None => break,
            }
        }
        assert_eq!(seen, ids);
    }
}

#[test]
fn at_most_one_of_many_attempts_wins() {
    let attempts = |start: SandboxStatus, expected: &[SandboxStatus], next: SandboxStatus| {
        let mut status = start;
        let mut won = 0;
        for _ in 0..4 {
            let (after, moved) = compare_and_set_sandbox_status(status, expected, next);
            status = after;
            won += i32::from(moved);
        }
        (status, won)
    };
    let live = [SandboxStatus::Running, SandboxStatus::Draining];
    assert_eq!(
        attempts(SandboxStatus::Draining, &live, SandboxStatus::Stopped),
        (SandboxStatus::Stopped, 1)
    );
    assert_eq!(
        attempts(SandboxStatus::Created, &live, SandboxStatus::Stopped),
        (SandboxStatus::Created, 0)
    );
}

#[test]
fn list_pages_after_filtering_by_labels() {
    // Rows 1 to 4 are "first", "other", "second" and "third".
    let names = ["", "first", "other", "second", "third"];
    let owners = [(1, "mine"), (2, "theirs"), (3, "mine"), (4, "mine")];
    let rows: Vec<LabelRow> = owners
        .iter()
        .map(|(id, owner)| LabelRow {
            sandbox_id: *id,
            key: "owner".into(),
            value: owner.to_string(),
        })
        .collect();
    let ids = vec![4, 3, 2, 1];
    let labels = vec![("owner".to_string(), "mine".to_string())];

    let (first, cursor) = list_sandbox_ids(&ids, None, &labels, &rows, 2).ok().unwrap();
    let shown: Vec<&str> = first.iter().map(|id| names[*id as usize]).collect();
    assert_eq!(shown, ["third", "second"]);

    let cursor = cursor.expect("first page has another matching row");
    let (second, cursor) = list_sandbox_ids(&ids, Some(&cursor), &labels, &rows, 2).ok().unwrap();
    assert_eq!(names[second[0] as usize], "first");
    assert_eq!(second.len(), 1);
    assert!(cursor.is_none());
}

#[test]
fn lists_without_labels_show_everything() {
    let ids = vec![9, 5, 2];
    let (all, cursor) = list_sandbox_ids(&ids, None, &Vec::new(), &Vec::new(), 3).ok().unwrap();
    assert_eq!(all, ids);
    assert!(cursor.is_none());
    let (none, cursor) = list_sandbox_ids(&ids, None, &Vec::new(), &Vec::new(), 0).ok().unwrap();
    assert!(none.is_empty());
    assert!(cursor.is_none());
    // Labels that nothing has leave nothing.
    let labels = vec![("a".to_string(), "b".to_string())];
    let (none, cursor) = list_sandbox_ids(&ids, None, &labels, &Vec::new(), 3).ok().unwrap();
    assert!(none.is_empty());
    assert!(cursor.is_none());
    assert_eq!(
        text(list_sandbox_ids(&ids, Some("!"), &Vec::new(), &Vec::new(), 3)),
        "invalid sandbox list cursor encoding"
    );
}

#[test]
fn cursors_name_a_row() {
    for id in [0, 1, 7, 42, i32::MAX, -1, i32::MIN] {
        let cursor = encode_list_cursor(id);
        assert_ne!(cursor, id.to_string());
        assert_eq!(decode_list_cursor(&cursor).ok(), Some(id));
    }
    assert_eq!(text(decode_list_cursor("***")), "invalid sandbox list cursor encoding");
    assert_eq!(text(decode_list_cursor("aGVsbG8")), "invalid sandbox list cursor payload");
    let (page, cursor) = list_page(vec![30, 20, 10], 2);
    assert_eq!(page, vec![30, 20]);
    assert_eq!(decode_list_cursor(&cursor.unwrap()).ok(), Some(20));
}

#[test]
fn every_label_counts() {
    let label = |sandbox_id, key: &str, value: &str| LabelRow {
        sandbox_id,
        key: key.into(),
        value: value.into(),
    };
    let rows = vec![
        label(1, "team", "metrics"),
        label(1, "tier", "gold"),
        label(2, "team", "metrics"),
        label(3, "tier", "gold"),
    ];
    let labels = vec![
        ("team".to_string(), "metrics".to_string()),
        ("tier".to_string(), "gold".to_string()),
    ];
    assert_eq!(filter_sandbox_ids(&rows, &labels), vec![1]);
    assert!(filter_sandbox_ids(&rows, &Vec::new()).is_empty());
}

#[test]
fn the_latest_live_run_gives_the_process() {
    let runs = vec![
        RunPid { sandbox_id: 1, pid: None },
        RunPid { sandbox_id: 1, pid: Some(10) },
        RunPid { sandbox_id: 1, pid: Some(11) },
        RunPid { sandbox_id: 2, pid: None },
    ];
    let pids = load_active_pids(&runs);
    assert_eq!(pids.get(&1), Some(&10));
    assert_eq!(pids.get(&2), None);
    assert_eq!(pair_pids(&vec![2, 1], &pids), vec![(2, None), (1, Some(10))]);
}

#[test]
fn runs_are_found_by_time_and_by_number() {
    let run = |id, sandbox_id, started_at, running| RunModel {
        id,
        sandbox_id,
        pid: Some(id * 10),
        started_at,
        running,
    };
    let runs = vec![
        run(1, 7, Some(50), true),
        run(2, 7, Some(90), true),
        run(3, 7, None, true),
        run(4, 7, Some(99), false),
        run(5, 8, Some(100), true),
    ];
    assert_eq!(load_active_run(&runs, 7).map(|r| r.id), Some(2));
    assert_eq!(load_latest_run(&runs, 7).map(|r| r.id), Some(4));
    assert_eq!(load_active_run(&runs, 9), None);
    assert_eq!(load_latest_run(&runs, 9), None);
}

// ------------------------------------------------------------------------------------------------
// Identity
// ------------------------------------------------------------------------------------------------

#[test]
fn identified_lifecycle_operations_reject_a_recreated_name() {
    let name = "identity-replacement";
    let (current_id, stale_id) = (1, 2);
    let replaced = |e: MicrosandboxError| matches!(e, MicrosandboxError::SandboxReplaced { .. });
    let r = check_start(name, Some(stale_id), current_id, SandboxStatus::Running);
    assert!(replaced(r.unwrap_err()));
    let r = sandbox_handle_state(name, Some(current_id), Some(stale_id));
    assert!(replaced(r.unwrap_err()));
    let r = ensure_local_identity(name, Some(stale_id), current_id);
    assert!(replaced(r.unwrap_err()));
    assert!(ensure_local_identity(name, Some(current_id), current_id).is_ok());
    assert!(ensure_local_identity(name, None, current_id).is_ok());
    assert_eq!(sandbox_handle_state(name, Some(1), None).ok(), Some(1));
    assert!(matches!(
        sandbox_handle_state(name, None, None),
        Err(MicrosandboxError::SandboxNotFound(n)) if n == name
    ));
}

#[test]
fn cloud_identities_are_not_local() {
    assert_eq!(local_identity(SandboxIdentity::Local(3)).ok(), Some(3));
    assert_eq!(
        text(local_identity(SandboxIdentity::Cloud("u-1".into()))),
        "cloud sandbox identity \"u-1\" was routed to the local backend"
    );
}

#[test]
fn local_handles_show_the_record_and_its_process() {
    let model = SandboxModel {
        id: 4,
        name: "worker".into(),
        status: SandboxStatus::Running,
        config: "{}".into(),
        active_config: None,
        created_at: Some(1),
        updated_at: Some(2),
    };
    let handle = SandboxHandle::from_local_model(model, SandboxStatus::Paused, Some(77));
    assert_eq!(handle.name, "worker");
    match handle.inner {
        SandboxHandleInner::Local(state) => {
            assert_eq!(state.db_id, 4);
            assert_eq!(state.status, SandboxStatus::Paused);
            assert_eq!(state.pid, Some(77));
            assert_eq!(state.config_json, "{}");
        }
        SandboxHandleInner::Cloud(_) => panic!("cloud"),
    }
}

// ------------------------------------------------------------------------------------------------
// Records
// ------------------------------------------------------------------------------------------------

#[test]
fn atomic_start_claim_selects_exactly_one_winner() {
    let mut status = SandboxStatus::Stopped;
    let mut winners = 0;
    for _ in 0..4 {
        let (next, claimed) = compare_and_set_sandbox_status(
            status,
            &[SandboxStatus::Stopped, SandboxStatus::Crashed],
            SandboxStatus::Starting,
        );
        status = next;
        winners += i32::from(claimed);
    }
    assert_eq!(winners, 1, "only one caller may claim a start generation");
    assert_eq!(status, SandboxStatus::Starting);
    let (status, published) = compare_and_set_sandbox_status(
        status,
        &[SandboxStatus::Stopped],
        SandboxStatus::Running,
    );
    assert!(!published, "publication from the wrong source state must be rejected");
    let (status, published) = compare_and_set_sandbox_status(
        status,
        &[SandboxStatus::Starting],
        SandboxStatus::Running,
    );
    assert!(published, "the start winner must publish readiness from Starting");
    assert_eq!(status, SandboxStatus::Running);
}

#[test]
fn terminal_status_releases_network_slot() {
    let stopped = update_sandbox_status(row(SandboxStatus::Running), SandboxStatus::Stopped);
    assert_eq!(stopped.network_slot, None);
    assert!(!stopped.has_active_config);
    let draining = update_sandbox_status(row(SandboxStatus::Running), SandboxStatus::Draining);
    assert_eq!(draining.network_slot, Some(11));
    let stopped = mark_sandbox_stopped_for_replacement(row(SandboxStatus::Running));
    assert_eq!(stopped.status, SandboxStatus::Stopped);
    assert_eq!(stopped.network_slot, None);
}

#[test]
fn only_running_records_drain() {
    assert_eq!(
        mark_sandbox_draining_if_running(row(SandboxStatus::Running)).status,
        SandboxStatus::Draining
    );
    assert_eq!(
        mark_sandbox_draining_if_running(row(SandboxStatus::Paused)).status,
        SandboxStatus::Paused
    );
}

#[test]
fn running_configurations_are_recorded() {
    let bare = RuntimeRow { has_active_config: false, ..row(SandboxStatus::Running) };
    let recorded = update_sandbox_active_config(Some(bare), true).ok().unwrap().unwrap();
    assert!(recorded.has_active_config);
    // An older catalog has no room for it.
    let kept = update_sandbox_active_config(Some(bare), false).ok().unwrap().unwrap();
    assert!(!kept.has_active_config);
    assert_eq!(
        text(update_sandbox_active_config(None, true)),
        "sandbox disappeared before recording its active configuration"
    );
}

#[test]
fn test_validate_start_state_requires_existing_sandbox_dir() {
    let r = validate_start_state(&config("missing", None), "/t/missing", false, &VmdkFact::Unknown);
    assert!(text(r).contains("sandbox state missing"));
}

#[test]
fn test_validate_start_state_accepts_oci_with_manifest_digest() {
    let mut persisted = config("persisted", None);
    persisted.manifest_digest = Some("sha256:aaaa".into());
    assert!(validate_start_state(&persisted, "/t/persisted", true, &VmdkFact::Unknown).is_ok());
}

#[test]
fn flat_restart_does_not_require_layered_image_artifacts() {
    let missing = VmdkFact::At { path: "/cache/a.vmdk".into(), exists: false };
    let mut flat =
        config("persisted", Some(RootDisk::Flat { size_mib: Some(512), clone: FlatClone::Auto, fstype: None }));
    flat.manifest_digest = Some(format!("sha256:{}", "a".repeat(64)));
    assert!(validate_start_state(&flat, "/t/persisted", true, &missing).is_ok());
    let mut layered = config("persisted", None);
    layered.manifest_digest = flat.manifest_digest.take();
    assert!(text(validate_start_state(&layered, "/t/persisted", true, &missing))
        .contains("VMDK missing"));
}

// ------------------------------------------------------------------------------------------------
// Reconciling
// ------------------------------------------------------------------------------------------------

const UNROOTED: ReconcileScope = ReconcileScope { has_roots: false, transition_owned: false };
const ROOTED: ReconcileScope = ReconcileScope { has_roots: true, transition_owned: false };

fn reconcile(status: SandboxStatus, scope: ReconcileScope, events: &[ReconcileEvent]) -> ReconcileStep {
    let mut step = ReconcileStep::start(status);
    for event in events {
        step = step.advance(*event, scope);
    }
    step
}

#[test]
fn test_reconcile_sandbox_runtime_state_marks_dead_processes_crashed() {
    let running = SandboxStatus::Running;
    let step = reconcile(
        running,
        UNROOTED,
        &[
            ReconcileEvent::Alive(false),
            ReconcileEvent::Row(Some(running)),
            ReconcileEvent::Run { run: 5, alive: false },
        ],
    );
    assert_eq!(
        step,
        ReconcileStep::Retire {
            terminal: SandboxStatus::Crashed,
            reason: TerminationReason::InternalError,
            run: Some(5)
        }
    );
    let retired = mark_sandbox_runtime_stale(row(running), SandboxStatus::Crashed);
    assert_eq!(retired.status, SandboxStatus::Crashed);
    assert_eq!(retired.network_slot, None);
    let step = step
        .advance(ReconcileEvent::Done, UNROOTED)
        .advance(ReconcileEvent::Row(Some(retired.status)), UNROOTED);
    assert_eq!(step, ReconcileStep::Reconciled { status: SandboxStatus::Crashed });
}

#[test]
fn test_reconcile_sandbox_runtime_state_marks_dead_draining_stopped() {
    let draining = SandboxStatus::Draining;
    let step = reconcile(
        draining,
        UNROOTED,
        &[
            ReconcileEvent::Alive(false),
            ReconcileEvent::Row(Some(draining)),
            ReconcileEvent::Run { run: 5, alive: false },
        ],
    );
    assert_eq!(
        step,
        ReconcileStep::Retire {
            terminal: SandboxStatus::Stopped,
            reason: TerminationReason::ShutdownRequested,
            run: Some(5)
        }
    );
    assert_eq!(
        stale_runtime_terminal_state(draining),
        (SandboxStatus::Stopped, TerminationReason::ShutdownRequested)
    );
}

#[test]
fn test_reconcile_sandbox_runtime_state_marks_draining_without_run_stopped() {
    let draining = SandboxStatus::Draining;
    let step = reconcile(
        draining,
        UNROOTED,
        &[
            ReconcileEvent::Alive(false),
            ReconcileEvent::Row(Some(draining)),
            ReconcileEvent::NoRun,
        ],
    );
    assert!(matches!(
        step,
        ReconcileStep::Retire { terminal: SandboxStatus::Stopped, run: None, .. }
    ));
}

#[test]
fn abandoned_start_recovers_only_after_creator_ownership_ends() {
    let starting = SandboxStatus::Starting;
    // While the creator owns the name, the record stands.
    let owned = reconcile(
        starting,
        ROOTED,
        &[ReconcileEvent::Alive(false), ReconcileEvent::Taken(false)],
    );
    assert_eq!(owned, ReconcileStep::Unchanged);
    // Once it does not, the start is given up.
    let free = reconcile(
        starting,
        ROOTED,
        &[
            ReconcileEvent::Alive(false),
            ReconcileEvent::Taken(true),
            ReconcileEvent::Taken(true),
            ReconcileEvent::Row(Some(starting)),
            ReconcileEvent::NoRun,
            ReconcileEvent::Done,
        ],
    );
    assert_eq!(
        free,
        ReconcileStep::Retire {
            terminal: SandboxStatus::Crashed,
            reason: TerminationReason::InternalError,
            run: None
        }
    );
    // Without the locks nobody can know.
    let unknown = reconcile(
        starting,
        UNROOTED,
        &[
            ReconcileEvent::Alive(false),
            ReconcileEvent::Row(Some(starting)),
            ReconcileEvent::NoRun,
        ],
    );
    assert_eq!(unknown, ReconcileStep::Reloaded { status: starting });
}

#[test]
fn test_reap_marks_only_dead_active_sandboxes() {
    // Stopped records are not looked at, live ones are left alone.
    assert_eq!(ReconcileStep::start(SandboxStatus::Stopped), ReconcileStep::Unchanged);
    assert_eq!(ReconcileStep::start(SandboxStatus::Created), ReconcileStep::Unchanged);
    assert_eq!(
        reconcile(SandboxStatus::Running, ROOTED, &[ReconcileEvent::Alive(true)]),
        ReconcileStep::Unchanged
    );
    // A record that came to rest, or to life, in the meantime is left alone too.
    let locked =
        [ReconcileEvent::Alive(false), ReconcileEvent::Taken(true), ReconcileEvent::Taken(true)];
    let step = reconcile(SandboxStatus::Running, ROOTED, &locked);
    assert_eq!(
        step.advance(ReconcileEvent::Row(Some(SandboxStatus::Stopped)), ROOTED),
        ReconcileStep::Reloaded { status: SandboxStatus::Stopped }
    );
    assert_eq!(step.advance(ReconcileEvent::Row(None), ROOTED), ReconcileStep::Missing);
    assert_eq!(
        step.advance(ReconcileEvent::Row(Some(SandboxStatus::Running)), ROOTED)
            .advance(ReconcileEvent::Run { run: 1, alive: true }, ROOTED),
        ReconcileStep::Reloaded { status: SandboxStatus::Running }
    );
}

#[test]
fn reconcile_treats_a_recycled_pid_as_dead_without_touching_the_process() {
    // A recycled PID is not alive; the steps that follow never signal anything.
    let step = reconcile(
        SandboxStatus::Running,
        ReconcileScope { has_roots: true, transition_owned: true },
        &[
            ReconcileEvent::Alive(false),
            ReconcileEvent::Taken(true),
            ReconcileEvent::Row(Some(SandboxStatus::Running)),
            ReconcileEvent::Run { run: 9, alive: false },
        ],
    );
    assert_eq!(
        step,
        ReconcileStep::RemoveSockets { status: SandboxStatus::Running, run: Some(9) }
    );
}

#[test]
fn sessions_end_with_their_runtime() {
    assert!(drops_control_sessions(SandboxStatus::Crashed));
    assert!(drops_control_sessions(SandboxStatus::Stopped));
    assert!(!drops_control_sessions(SandboxStatus::Running));
}

// ------------------------------------------------------------------------------------------------
// Starting
// ------------------------------------------------------------------------------------------------

fn start(mode: SpawnMode, events: &[StartEvent]) -> StartStep {
    let mut step = StartStep::TakeTransition;
    for event in events {
        step = step.advance(*event, mode);
    }
    step
}

#[test]
fn starts_publish_only_what_they_claimed() {
    let done = StartEvent::Done;
    let claimed = [
        done,
        done,
        done,
        done,
        StartEvent::Previous(None),
        done,
        done,
        StartEvent::Moved(true),
    ];
    let boot = start(SpawnMode::Attached, &claimed);
    assert_eq!(boot, StartStep::Boot);
    let mode = SpawnMode::Attached;
    assert_eq!(boot.advance(StartEvent::Failed, mode), StartStep::Unclaim);
    let publish = boot.advance(done, mode);
    assert_eq!(publish, StartStep::Publish);
    assert_eq!(publish.advance(StartEvent::Moved(false), mode), StartStep::Terminate);
    let record = publish.advance(StartEvent::Moved(true), mode);
    assert_eq!(record, StartStep::RecordConfig);
    assert_eq!(record.advance(done, mode), StartStep::Started);
    assert_eq!(record.advance(done, SpawnMode::Detached), StartStep::Detach);
    assert_eq!(record.advance(StartEvent::Failed, mode), StartStep::Terminate);
    let lost = [
        done,
        done,
        done,
        done,
        StartEvent::Previous(None),
        done,
        done,
        StartEvent::Moved(false),
    ];
    assert_eq!(start(mode, &lost), StartStep::Failed);
}

#[test]
fn starts_wait_for_the_previous_runtime() {
    let done = StartEvent::Done;
    let mode = SpawnMode::Attached;
    let seen = start(mode, &[done, done, done, done, StartEvent::Previous(Some(7))]);
    assert_eq!(seen, StartStep::ObservePrevious { pid: 7 });
    let waiting = seen.advance(StartEvent::Alive { alive: true, waited_ms: 4_999 }, mode);
    assert_eq!(waiting, StartStep::AwaitPrevious { pid: 7 });
    assert_eq!(waiting.advance(done, mode), seen);
    let late = seen.advance(StartEvent::Alive { alive: true, waited_ms: 5_000 }, mode);
    assert_eq!(late, StartStep::ConfirmPrevious { pid: 7 });
    assert_eq!(
        late.advance(StartEvent::Alive { alive: true, waited_ms: 5_000 }, mode),
        StartStep::Failed
    );
    assert_eq!(
        late.advance(StartEvent::Alive { alive: false, waited_ms: 5_000 }, mode),
        StartStep::AwaitDisks
    );
    assert_eq!(
        previous_runtime_error("worker", 7).message(),
        "cannot start sandbox \"worker\": previous runtime pid 7 is still alive"
    );
}

#[test]
fn starts_are_refused_in_words() {
    assert!(check_start("w", None, 1, SandboxStatus::Stopped).is_ok());
    assert_eq!(
        text(check_start("w", None, 1, SandboxStatus::Running)),
        "cannot start sandbox 'w': already running"
    );
    assert_eq!(
        text(check_start("w", None, 1, SandboxStatus::Draining)),
        "cannot start sandbox 'w': already running"
    );
    assert_eq!(
        text(check_start("w", None, 1, SandboxStatus::Paused)),
        "cannot start sandbox 'w': status is Paused (expected Created, Stopped, or Crashed)"
    );
    assert!(recheck_start("w", 1, 1, SandboxStatus::Crashed).is_ok());
    assert_eq!(
        text(recheck_start("w", 1, 1, SandboxStatus::Starting)),
        "cannot start sandbox \"w\": status changed to Starting"
    );
    assert!(matches!(
        recheck_start("w", 1, 2, SandboxStatus::Stopped),
        Err(MicrosandboxError::SandboxReplaced { .. })
    ));
    assert_eq!(
        claim_error("w", 1, 1, SandboxStatus::Starting).message(),
        "cannot start sandbox \"w\": another lifecycle transition changed status to Starting"
    );
    assert!(matches!(
        claim_error("w", 1, 2, SandboxStatus::Starting),
        MicrosandboxError::SandboxReplaced { .. }
    ));
    assert_eq!(
        lost_claim_error("w").message(),
        "sandbox \"w\" lost its Starting state before readiness publication"
    );
}

// ------------------------------------------------------------------------------------------------
// Stopping, killing and draining
// ------------------------------------------------------------------------------------------------

fn kill(status: SandboxStatus, events: &[KillEvent]) -> KillStep {
    let mut step = KillStep::start(status);
    for event in events {
        step = step.advance(*event);
    }
    step
}

#[test]
fn kill_signals_the_runtime_recorded_after_its_own_start() {
    let signal = kill(
        SandboxStatus::Running,
        &[KillEvent::Watching(false), KillEvent::Live(true)],
    );
    assert_eq!(signal, KillStep::Signal { departing: false });
    let gone = signal
        .advance(KillEvent::Done)
        .advance(KillEvent::Done)
        .advance(KillEvent::Exited(true));
    assert_eq!(gone, KillStep::MarkStopped);
    assert_eq!(gone.advance(KillEvent::Done), KillStep::Done);
    let alive = signal
        .advance(KillEvent::Done)
        .advance(KillEvent::Done)
        .advance(KillEvent::Exited(false));
    assert_eq!(alive, KillStep::Done);
}

#[test]
fn kill_waits_for_start_publication_and_terminates_the_created_run() {
    // While the start owns the turn, the kill waits.
    let waiting = TransitionStep::Try.advance(TransitionEvent::Locked(false));
    assert_eq!(waiting, TransitionStep::Sleep);
    let held = waiting.advance(TransitionEvent::Slept).advance(TransitionEvent::Locked(true));
    assert_eq!(held, TransitionStep::Held);
    // Then it kills the run that was published, and the record is stopped.
    let killed = kill(
        SandboxStatus::Running,
        &[
            KillEvent::Watching(false),
            KillEvent::Live(true),
            KillEvent::Done,
            KillEvent::Done,
            KillEvent::Exited(true),
        ],
    );
    assert_eq!(killed, KillStep::MarkStopped);
    let stopped = update_sandbox_status(row(SandboxStatus::Running), SandboxStatus::Stopped);
    assert_eq!(stopped.status, SandboxStatus::Stopped);
}

#[test]
fn kill_without_signalable_process_leaves_an_owned_row_to_reconcile() {
    let owned = kill(
        SandboxStatus::Running,
        &[KillEvent::Watching(false), KillEvent::Live(false), KillEvent::Unowned(false)],
    );
    assert_eq!(owned, KillStep::Done);
    let free = kill(
        SandboxStatus::Running,
        &[KillEvent::Watching(false), KillEvent::Live(false), KillEvent::Unowned(true)],
    );
    assert_eq!(free, KillStep::MarkStopped);
}

#[test]
fn kill_and_drain_leave_a_recycled_pid_alone() {
    // A recycled PID is not live, so neither asks for a signal.
    let killed =
        kill(SandboxStatus::Running, &[KillEvent::Watching(false), KillEvent::Live(false)]);
    assert_eq!(killed, KillStep::ObserveOwner { departing: false });
    let drained = DrainStep::start(SandboxStatus::Running)
        .advance(DrainEvent::Done)
        .advance(DrainEvent::Live(false));
    assert_eq!(drained, DrainStep::Done);
}

#[test]
fn kills_wait_for_watched_runtimes() {
    let watched = kill(
        SandboxStatus::Running,
        &[
            KillEvent::Watching(true),
            KillEvent::Live(true),
            KillEvent::Done,
            KillEvent::Done,
            KillEvent::Exited(true),
        ],
    );
    assert_eq!(watched, KillStep::AwaitRelease { dead: true });
    assert_eq!(watched.advance(KillEvent::TimedOut), KillStep::Unreleased);
    assert_eq!(watched.advance(KillEvent::Done), KillStep::MarkStopped);
    assert_eq!(
        unreleased_error("w").message(),
        "sandbox \"w\" runtime has not finished releasing resources after kill"
    );
    assert_eq!(kill(SandboxStatus::Stopped, &[]), KillStep::Done);
}

#[test]
fn stops_ask_and_never_kill() {
    let step = StopStep::start(SandboxStatus::Running);
    assert_eq!(step.advance(StopEvent::Pause(true)), StopStep::Paused);
    assert_eq!(
        paused_stop_error("w").message(),
        "cannot gracefully stop paused sandbox \"w\"; resume it first or explicitly kill it"
    );
    let asked = step.advance(StopEvent::Pause(false));
    assert_eq!(asked, StopStep::RequestShutdown { status: SandboxStatus::Running });
    assert_eq!(asked.advance(StopEvent::Failed), StopStep::Failed);
    assert_eq!(asked.advance(StopEvent::Done), StopStep::MarkDraining);
    assert_eq!(StopStep::start(SandboxStatus::Stopped), StopStep::Done);
}

#[test]
fn drains_go_through_the_agent_on_windows() {
    let lost = MicrosandboxError::Runtime("closed".into());
    assert_eq!(
        agent_drain_error(lost, "closed").message(),
        "windows drain requires the agent shutdown path, but the agent endpoint is unavailable: closed"
    );
    let replaced = MicrosandboxError::SandboxReplaced {
        name: "w".into(),
        expected: "1".into(),
        actual: "2".into(),
    };
    assert!(matches!(
        agent_drain_error(replaced, ""),
        MicrosandboxError::SandboxReplaced { .. }
    ));
}

#[test]
fn shutdowns_check_the_identity_before_they_send() {
    let done = ShutdownEvent::Done;
    let connect = ShutdownStep::start(false);
    assert_eq!(connect, ShutdownStep::Connect { owned: false });
    let check = connect.advance(done);
    assert_eq!(check, ShutdownStep::CheckIdentity);
    assert_eq!(check.advance(ShutdownEvent::Failed), ShutdownStep::Failed);
    assert_eq!(check.advance(done).advance(done), ShutdownStep::Sent);
    let owner = ShutdownStep::start(true);
    assert_eq!(
        owner.advance(ShutdownEvent::Owner { alive: true }),
        ShutdownStep::Connect { owned: true }
    );
    assert_eq!(owner.advance(ShutdownEvent::NoOwner), connect);
    assert_eq!(owner.advance(ShutdownEvent::Owner { alive: false }), ShutdownStep::OwnerGone);
    assert_eq!(owner_gone_error().message(), "runtime exited before shutdown dispatch");
}

#[test]
fn waits_end_with_the_process_or_the_time() {
    assert!(keep_waiting(false, 4_999, 5_000));
    assert!(!keep_waiting(false, 5_000, 5_000));
    assert!(!keep_waiting(true, 0, 5_000));
}
