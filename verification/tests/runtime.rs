//! What a recorded PID names.

use microsandbox::agent_socket::LocalBackend;
use microsandbox::runtime_identity::{
    classify_lock_link, exe_evidence, exe_evidence_from_names, lock_evidence, lock_file_name,
    macos_signal_number, signal_number, verdict, ExeEvidence, Finding, Inspection, LockEvidence, Proof,
    RecordedRuntime, RunFacts, RuntimeProcess, RuntimeSignal, TimeEvidence,
};

const HOUR: i64 = 3_600_000_000;
const NOW: i64 = 1_700_000_000_000_000;
const SLACK: i64 = 5_000_000;

fn lock_path(dir: &str, name: &str) -> String {
    format!("{dir}/locks/{name}.lock")
}

fn facts(pid: Option<i32>, started_at: Option<i64>, has_lifecycle: bool) -> RunFacts {
    RunFacts { pid, started_at, has_lifecycle, slack: SLACK }
}

fn inspect(facts: RunFacts, findings: &[Finding]) -> RecordedRuntime {
    let mut step = Inspection::inspect(facts);
    for finding in findings {
        step = step.advance(*finding, facts);
    }
    match step {
        Inspection::Finished(runtime) => runtime,
        other => panic!("not finished: {other:?}"),
    }
}

#[test]
fn decision_table() {

    for time in [TimeEvidence::Unknown, TimeEvidence::Plausible, TimeEvidence::TooLate] {
        for exe in [ExeEvidence::Msb, ExeEvidence::Other, ExeEvidence::Unknown] {
            assert_eq!(verdict(LockEvidence::Matches, time, exe), Some(Proof::LifecycleLock));
            assert_eq!(verdict(LockEvidence::OtherSandbox, time, exe), None);
            assert_eq!(verdict(LockEvidence::Absent, TimeEvidence::Unknown, exe), Some(Proof::Unverified));
            assert_eq!(verdict(LockEvidence::Absent, TimeEvidence::Plausible, exe), Some(Proof::StartedBeforeRun));
        }
    }
    // A too-late creation time condemns a stranger, never a process that is itself msb.
    assert_eq!(verdict(LockEvidence::Absent, TimeEvidence::TooLate, ExeEvidence::Msb), Some(Proof::Unverified));
    assert_eq!(verdict(LockEvidence::Absent, TimeEvidence::TooLate, ExeEvidence::Other), None);
    assert_eq!(verdict(LockEvidence::Absent, TimeEvidence::TooLate, ExeEvidence::Unknown), None);
}

#[test]
fn lock_link_classification() {
    let hash_a = "a".repeat(32);
    let hash_b = "b".repeat(32);
    let expected = lock_path("/opt/microsandbox/run", &hash_a);

    // Same name in another launcher's run directory: the cross-namespace drainer.
    assert_eq!(
        classify_lock_link(&lock_path("/other/run", &hash_a), &expected),
        LockEvidence::Matches
    );
    // The holder's run directory was torn down under it; the descriptor is still the lock.
    assert_eq!(
        classify_lock_link(
            &format!("/opt/microsandbox/run/locks/{hash_a}.lock (deleted)"),
            &expected
        ),
        LockEvidence::Matches
    );
    // Another sandbox's lifecycle lock: this PID now runs a different VM.
    assert_eq!(
        classify_lock_link(&lock_path("/opt/microsandbox/run", &hash_b), &expected),
        LockEvidence::OtherSandbox
    );
    // Sibling lock kinds and arbitrary files on fd 99 are no evidence either way.
    assert_eq!(
        classify_lock_link(
            &format!("/opt/microsandbox/run/locks/{hash_b}.snapshot-lineage.lock"),
            &expected
        ),
        LockEvidence::Absent
    );
    assert_eq!(classify_lock_link("/tmp/x.lock", &expected), LockEvidence::Absent);
    assert_eq!(classify_lock_link("/dev/null", &expected), LockEvidence::Absent);
}

#[test]
fn executable_names_identify_msb() {
    assert_eq!(
        exe_evidence_from_names([Some("/usr/local/bin/msb".into()), Some("msb".into())]),
        ExeEvidence::Msb
    );
    // Upgraded binary: procfs marks the unlinked executable, the command name still tells.
    assert_eq!(
        exe_evidence_from_names([Some("msb (deleted)".into()), None]),
        ExeEvidence::Other
    );
    assert_eq!(
        exe_evidence_from_names([Some(lock_file_name("/opt/bin/msb (deleted)").unwrap()), None]),
        ExeEvidence::Msb
    );
    assert_eq!(
        exe_evidence_from_names([Some("/usr/bin/sleep".into()), Some("sleep".into())]),
        ExeEvidence::Other
    );
    assert_eq!(exe_evidence_from_names([None, None]), ExeEvidence::Unknown);
}

#[test]
fn missing_and_dead_pids_are_dead() {
    assert!(matches!(inspect(facts(None, Some(NOW), false), &[]), RecordedRuntime::Dead));
    assert!(matches!(inspect(facts(Some(-1), Some(NOW), false), &[]), RecordedRuntime::Dead));
    // A zombie still owns its PID; the runtime it stood for has nonetheless exited.
    assert!(matches!(
        inspect(
            facts(Some(77), Some(NOW - HOUR), false),
            &[Finding::Captured(false), Finding::Alive(false)]
        ),
        RecordedRuntime::Dead
    ));
    assert!(matches!(
        inspect(
            facts(Some(77), None, false),
            &[Finding::Captured(false), Finding::Alive(false)]
        ),
        RecordedRuntime::Dead
    ));
    // What exits between two looks is dead too.
    assert!(matches!(
        inspect(
            facts(Some(77), None, false),
            &[Finding::Captured(true), Finding::Exited(Some(true))]
        ),
        RecordedRuntime::Dead
    ));
}

#[test]
fn stranger_created_after_the_run_started_is_recycled_and_spared() {
    // `sleep` is positively not msb, so the time rule may condemn it.
    assert_eq!(exe_evidence(Some("/usr/bin/sleep"), Some("sleep")), ExeEvidence::Other);
    let verdict = inspect(
        facts(Some(77), Some(NOW - HOUR), false),
        &[
            Finding::Captured(true),
            Finding::Created(Some(NOW)),
            Finding::Executable(ExeEvidence::Other),
            Finding::Exited(Some(false)),
        ],
    );
    assert!(matches!(verdict, RecordedRuntime::Recycled));
    assert!(verdict.live().is_none());
    assert_eq!(LocalBackend::pid_from_run(verdict), None);
}

#[test]
fn process_created_before_the_run_started_is_live_and_signalled() {
    let verdict = inspect(
        facts(Some(77), Some(NOW), false),
        &[
            Finding::Captured(true),
            Finding::Created(Some(NOW - 1_000)),
            Finding::Exited(Some(false)),
        ],
    );
    let process = verdict.live().expect("a process older than its run row is the runtime");
    assert_eq!(process.proof_of_identity(), Proof::StartedBeforeRun);
    assert_eq!(process.pid(), 77);
    assert_eq!(LocalBackend::pid_from_run(verdict), Some(77));
    assert!(!process.has_exited(Some(false), true));
    assert!(process.signals_instance());
    assert_eq!(signal_number(RuntimeSignal::Kill), 9);
    assert_eq!(signal_number(RuntimeSignal::Terminate), 15);
    assert_eq!(signal_number(RuntimeSignal::Drain), 10);
    assert_eq!(macos_signal_number(RuntimeSignal::Kill), 9);
    assert_eq!(macos_signal_number(RuntimeSignal::Terminate), 15);
    assert_eq!(macos_signal_number(RuntimeSignal::Drain), 30);
    // The PID may be taken again: the instance has exited all the same.
    assert!(process.has_exited(Some(true), true));
    assert!(process.has_exited(None, true));
}

#[test]
fn missing_started_at_is_unverified_but_live() {
    let process = inspect(
        facts(Some(77), None, false),
        &[Finding::Captured(true), Finding::Exited(Some(false))],
    )
    .live()
    .expect("an unprovable identity stays live");
    assert_eq!(process.proof_of_identity(), Proof::Unverified);
}

#[test]
fn started_at_within_slack_after_creation_is_still_live() {
    // The runtime inserts its row moments after it starts; timer rounding must not
    // turn that ordinary gap into a mismatch.
    let started_at = NOW - SLACK + 1_000_000;
    assert!(inspect(
        facts(Some(77), Some(started_at), false),
        &[Finding::Captured(true), Finding::Created(Some(NOW)), Finding::Exited(Some(false))]
    )
    .is_live());
}

#[test]
fn missing_lifecycle_lock_file_degrades_to_the_time_rule() {
    // The comparison of the files fails on the expected side; that is no evidence.
    let missing = lock_path("/nonexistent/run", &"c".repeat(32));
    let lock = lock_evidence(None, None, &missing);
    assert_eq!(lock, LockEvidence::Absent);
    let process = inspect(
        facts(Some(77), Some(NOW), true),
        &[
            Finding::Captured(true),
            Finding::Lock(lock),
            Finding::Created(Some(NOW - 1_000)),
            Finding::Exited(Some(false)),
        ],
    )
    .live()
    .expect("an unreadable lock comparison must not condemn the process");
    assert_eq!(process.proof_of_identity(), Proof::StartedBeforeRun);
}

#[test]
fn process_without_readable_identity_is_still_signalled_and_observed() {
    let verdict = inspect(
        facts(Some(77), Some(NOW), false),
        &[Finding::Captured(false), Finding::Alive(true)],
    );
    let process: RuntimeProcess = verdict.live().unwrap();
    assert_eq!(process.proof_of_identity(), Proof::Unverified);
    assert!(!process.signals_instance());
    assert!(!process.has_exited(None, true));
    assert!(process.has_exited(None, false));
}

#[test]
fn lifecycle_lock_holder_is_the_runtime_regardless_of_started_at() {
    let lifecycle = lock_path("/home/a", &"1".repeat(32));
    let foreign = lock_path("/home/b", &"1".repeat(32));
    let other_sandbox = lock_path("/home/a", &"2".repeat(32));
    let run = |lock| {
        inspect(
            facts(Some(77), Some(NOW - HOUR), true),
            &[
                Finding::Captured(true),
                Finding::Lock(lock),
                Finding::Created(Some(NOW)),
                Finding::Exited(Some(false)),
            ],
        )
    };

    // The same file: the strongest proof, immune to a stale `started_at`.
    let same = run(lock_evidence(Some(true), Some(&lifecycle), &lifecycle));
    assert_eq!(same.live().unwrap().proof_of_identity(), Proof::LifecycleLock);

    // Another launcher's run directory: the file differs, the name is the same sandbox's.
    let renamed = run(lock_evidence(Some(false), Some(&lifecycle), &foreign));
    assert_eq!(renamed.live().unwrap().proof_of_identity(), Proof::LifecycleLock);
    assert!(run(lock_evidence(None, Some(&lifecycle), &foreign)).is_live());

    // A descriptor on a different sandbox's lifecycle lock is a different VM on this PID.
    assert!(matches!(
        run(lock_evidence(Some(false), Some(&lifecycle), &other_sandbox)),
        RecordedRuntime::Recycled
    ));
}

#[test]
fn unexpected_findings_change_nothing() {
    let run = facts(Some(5), Some(NOW), true);
    let step = Inspection::inspect(run);
    assert_eq!(step, Inspection::Capture { pid: 5 });
    assert_eq!(step.advance(Finding::Exited(Some(true)), run), step);
    assert_eq!(step.advance(Finding::Captured(true), run), Inspection::ReadLock { pid: 5 });
}

#[test]
fn a_late_msb_is_not_condemned() {
    let verdict = inspect(
        facts(Some(77), Some(NOW - HOUR), false),
        &[
            Finding::Captured(true),
            Finding::Created(Some(NOW)),
            Finding::Executable(exe_evidence(Some("/opt/bin/msb (deleted)"), None)),
            Finding::Exited(Some(false)),
        ],
    );
    assert_eq!(verdict.live().unwrap().proof_of_identity(), Proof::Unverified);
}
