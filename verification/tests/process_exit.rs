//! Watching a runtime exit.

use microsandbox::host::{IoError, IoErrorKind};
use microsandbox::process_exit::{
    descriptor_path, has_exited, lifecycle_link, lifecycle_matches, CaptureEvent, CaptureStep,
    ExitError, FileKey, POLLHUP, POLLIN, POLLNVAL,
};
use microsandbox::process_exit_macos::{
    lifecycle_matches as darwin_lifecycle_matches, process_state, DarwinCapture, DarwinEvent,
    DarwinObservation, DescriptorFact, ProcessState, RegisterStep, P_WEXIT, SZOMB,
};

fn io(kind: IoErrorKind, raw: Option<i32>) -> IoError {
    IoError { kind, raw }
}

const LOCK: FileKey = FileKey { dev: 1, ino: 2 };

#[test]
fn stale_pid_without_matching_lifecycle_is_not_followed() {
    let other = FileKey { dev: 1, ino: 3 };
    let matches = lifecycle_matches(Ok(other), Ok(LOCK));
    assert_eq!(matches, Ok(false));
    let step = CaptureStep::capture(Some(42)).advance(CaptureEvent::Opened(Ok(())));
    assert_eq!(step, CaptureStep::Match { pid: 42 });
    assert_eq!(step.advance(CaptureEvent::Matched(matches)), CaptureStep::Nothing);
    assert_eq!(
        step.advance(CaptureEvent::Matched(Ok(true))),
        CaptureStep::Captured { pid: 42 }
    );
    // A descriptor that is not open is no match; a failure is a failure.
    let missing = Err(io(IoErrorKind::NotFound, Some(2)));
    assert_eq!(lifecycle_matches(missing, Ok(LOCK)), Ok(false));
    let denied = io(IoErrorKind::PermissionDenied, Some(13));
    assert_eq!(lifecycle_matches(Err(denied), Ok(LOCK)), Err(ExitError::Host(denied)));
    assert_eq!(lifecycle_matches(Ok(LOCK), Err(denied)), Err(ExitError::Host(denied)));
    assert_eq!(lifecycle_matches(Ok(LOCK), Ok(LOCK)), Ok(true));
}

#[test]
fn captures_need_a_process() {
    assert_eq!(CaptureStep::capture(None), CaptureStep::Nothing);
    assert_eq!(CaptureStep::capture(Some(0)), CaptureStep::Nothing);
    assert_eq!(CaptureStep::capture(Some(-5)), CaptureStep::Nothing);
    let open = CaptureStep::capture(Some(5));
    let gone = io(IoErrorKind::Other, Some(3));
    assert_eq!(open.advance(CaptureEvent::Opened(Err(gone))), CaptureStep::Nothing);
    let denied = io(IoErrorKind::PermissionDenied, Some(1));
    assert_eq!(
        open.advance(CaptureEvent::Opened(Err(denied))),
        CaptureStep::Failed(ExitError::Host(denied))
    );
}

#[test]
fn handles_become_readable_at_the_exit() {
    assert_eq!(has_exited(Ok(0)), Ok(false));
    assert_eq!(has_exited(Ok(POLLIN)), Ok(true));
    assert_eq!(has_exited(Ok(POLLHUP)), Ok(true));
    assert_eq!(has_exited(Ok(POLLNVAL | POLLIN)), Err(ExitError::InvalidHandle));
    assert_eq!(ExitError::InvalidHandle.message(), Some("invalid runtime exit handle"));
    assert_eq!(has_exited(Err(io(IoErrorKind::Interrupted, Some(4)))), Ok(false));
    let bad = io(IoErrorKind::Other, Some(5));
    assert_eq!(has_exited(Err(bad)), Err(ExitError::Host(bad)));
    assert_eq!(ExitError::Host(bad).message(), None);
}

#[test]
fn links_of_closed_descriptors_are_none() {
    assert_eq!(descriptor_path(42, 99), "/proc/42/fd/99");
    assert_eq!(lifecycle_link(Ok("/l".into())), Ok(Some("/l".into())));
    assert_eq!(lifecycle_link(Err(io(IoErrorKind::NotFound, Some(2)))), Ok(None));
    let denied = io(IoErrorKind::PermissionDenied, Some(13));
    assert_eq!(lifecycle_link(Err(denied)), Err(ExitError::Host(denied)));
}

fn report(pid: i32, seconds: i64, micros: i32, flags: i32, status: u8) -> Vec<u8> {
    let mut bytes = vec![0xaa; 648];
    bytes[0..8].copy_from_slice(&seconds.to_le_bytes());
    bytes[8..12].copy_from_slice(&micros.to_le_bytes());
    bytes[32..36].copy_from_slice(&flags.to_le_bytes());
    bytes[36] = status;
    bytes[40..44].copy_from_slice(&pid.to_le_bytes());
    bytes
}

#[test]
fn process_identity_layout_matches_libproc_and_recycled_identity_completes() {
    let bytes = report(4321, 1_700_000_000, 123_456, 0x4004, 2);
    let state = process_state(4321, &bytes, bytes.len()).unwrap().unwrap();
    assert_eq!(
        state,
        ProcessState {
            birth_seconds: 1_700_000_000,
            birth_micros: 123_456,
            status: 2,
            flags: 0x4004
        }
    );
    let negative = report(7, -2, -3, -4, 1);
    let state = process_state(7, &negative, 44).unwrap().unwrap();
    assert_eq!((state.birth_seconds, state.birth_micros, state.flags), (-2, -3, -4));
    assert_eq!(process_state(4321, &bytes, 0), Ok(None));
    assert_eq!(process_state(4321, &bytes, 43), Err(ExitError::IncompleteIdentity));
    assert_eq!(process_state(4321, &bytes, 649), Err(ExitError::IncompleteIdentity));
    assert_eq!(process_state(4322, &bytes, 648), Err(ExitError::OtherProcess));
    assert_eq!(
        ExitError::IncompleteIdentity.message(),
        Some("incomplete Darwin process identity")
    );
    assert_eq!(
        ExitError::OtherProcess.message(),
        Some("Darwin process identity does not match requested PID")
    );

    // A process that was born later has taken the PID: the watched one is gone.
    let watch = capture(&[
        state_of(10, 0),
        DarwinEvent::Registered(Ok(false)),
        state_of(10, 0),
        DarwinEvent::Matched(Ok(true)),
        state_of(10, 0),
    ]);
    let watch = match watch {
        DarwinCapture::Captured(watch) => watch,
        other => panic!("{other:?}"),
    };
    let seen = |state| watch.has_exited(DarwinObservation::State(Ok(state)));
    assert_eq!(seen(Some(darwin(10, 0))), Ok(false));
    assert_eq!(seen(Some(darwin(11, 0))), Ok(true));
    assert_eq!(seen(Some(ProcessState { status: SZOMB, ..darwin(10, 0) })), Ok(true));
    assert_eq!(seen(None), Ok(true));
}

fn darwin(born: i64, flags: i32) -> ProcessState {
    ProcessState { birth_seconds: born, birth_micros: 0, status: 2, flags }
}

fn state_of(born: i64, flags: i32) -> DarwinEvent {
    DarwinEvent::State(Ok(Some(darwin(born, flags))))
}

fn capture(events: &[DarwinEvent]) -> DarwinCapture {
    let mut step = DarwinCapture::capture(Some(42));
    for event in events {
        step = step.advance(*event);
    }
    step
}

#[test]
fn stale_pid_and_missing_process_are_not_followed() {
    assert_eq!(DarwinCapture::capture(None), DarwinCapture::Nothing);
    assert_eq!(DarwinCapture::capture(Some(-1)), DarwinCapture::Nothing);
    assert_eq!(capture(&[DarwinEvent::State(Ok(None))]), DarwinCapture::Nothing);
    let live = [
        state_of(10, 0),
        DarwinEvent::Registered(Ok(true)),
        state_of(10, 0),
        DarwinEvent::Matched(Ok(false)),
        state_of(10, 0),
    ];
    assert_eq!(capture(&live), DarwinCapture::Nothing);
    // Another instance took the PID between two looks.
    let recycled = [state_of(10, 0), DarwinEvent::Registered(Ok(true)), state_of(11, 0)];
    assert_eq!(capture(&recycled), DarwinCapture::Nothing);
    // A process on its way out is watched by looking at it.
    let leaving = [
        state_of(10, 0),
        DarwinEvent::Registered(Ok(true)),
        state_of(10, 0),
        DarwinEvent::Matched(Ok(false)),
        state_of(10, P_WEXIT),
    ];
    assert!(matches!(capture(&leaving), DarwinCapture::Captured(watch) if !watch.queued));
}

#[test]
fn queues_report_the_exit() {
    let watch = capture(&[
        state_of(10, 0),
        DarwinEvent::Registered(Ok(true)),
        state_of(10, 0),
        DarwinEvent::Matched(Ok(true)),
        state_of(10, 0),
    ]);
    let watch = match watch {
        DarwinCapture::Captured(watch) => watch,
        other => panic!("{other:?}"),
    };
    assert!(watch.queued);
    let poll = |revents| watch.has_exited(DarwinObservation::Queue(Ok(revents)));
    assert_eq!(poll(0), Ok(false));
    assert_eq!(poll(0x1), Ok(true));
    assert_eq!(poll(0x8), Err(ExitError::InvalidQueue));
    assert_eq!(poll(0x20), Err(ExitError::InvalidQueue));
    assert_eq!(ExitError::InvalidQueue.message(), Some("invalid runtime exit kqueue"));
    let interrupted = DarwinObservation::Queue(Err(io(IoErrorKind::Interrupted, Some(4))));
    assert_eq!(watch.has_exited(interrupted), Ok(false));
}

#[test]
fn interrupted_registrations_are_tried_again() {
    let register = RegisterStep::Open.register_exit(Ok(())).register_exit(Ok(()));
    assert_eq!(register, RegisterStep::Register);
    let interrupted = Err(io(IoErrorKind::Interrupted, Some(4)));
    assert_eq!(register.register_exit(interrupted), RegisterStep::Register);
    assert_eq!(register.register_exit(Err(io(IoErrorKind::Other, Some(3)))), RegisterStep::Gone);
    let bad = io(IoErrorKind::Other, Some(22));
    assert_eq!(register.register_exit(Err(bad)), RegisterStep::Failed(bad));
    assert_eq!(register.register_exit(Ok(())), RegisterStep::Registered);
}

#[test]
fn darwin_descriptors_match_by_file() {
    let failed = |raw| DescriptorFact::Failed(io(IoErrorKind::Other, Some(raw)));
    for raw in [2, 3, 9] {
        assert_eq!(darwin_lifecycle_matches(failed(raw), Ok(LOCK)), Ok(false));
    }
    assert_eq!(
        darwin_lifecycle_matches(failed(1), Ok(LOCK)),
        Err(ExitError::Host(io(IoErrorKind::Other, Some(1))))
    );
    assert_eq!(
        darwin_lifecycle_matches(DescriptorFact::Incomplete, Ok(LOCK)),
        Err(ExitError::IncompleteDescriptor)
    );
    assert_eq!(
        ExitError::IncompleteDescriptor.message(),
        Some("incomplete runtime lifecycle descriptor information")
    );
    assert_eq!(darwin_lifecycle_matches(DescriptorFact::File(LOCK), Ok(LOCK)), Ok(true));
}

#[test]
fn exit_barrier_ignores_next_disk_owner_and_does_not_reap() {
    let step = CaptureStep::capture(Some(42))
        .advance(CaptureEvent::Opened(Ok(())))
        .advance(CaptureEvent::Matched(lifecycle_matches(Ok(LOCK), Ok(LOCK))));
    assert_eq!(step, CaptureStep::Captured { pid: 42 });
    // The lock and the disk were let go, but a thread still runs: the handle stays quiet.
    assert_eq!(has_exited(Ok(0)), Ok(false));
    // Every look after the exit says the same.
    assert_eq!(has_exited(Ok(POLLIN)), Ok(true));
    assert_eq!(has_exited(Ok(POLLIN)), Ok(true));
}

#[test]
fn exit_barrier_waits_past_lifecycle_release_without_following_next_disk_owner() {
    let watch = match capture(&[
        state_of(10, 0),
        DarwinEvent::Registered(Ok(true)),
        state_of(10, 0),
        DarwinEvent::Matched(darwin_lifecycle_matches(DescriptorFact::File(LOCK), Ok(LOCK))),
        state_of(10, 0),
    ]) {
        DarwinCapture::Captured(watch) => watch,
        other => panic!("{other:?}"),
    };
    assert!(watch.queued);
    assert_eq!(watch.has_exited(DarwinObservation::Queue(Ok(0))), Ok(false));
    assert_eq!(watch.has_exited(DarwinObservation::Queue(Ok(POLLIN))), Ok(true));
}

#[test]
fn killed_runtime_releases_disk_before_exit_completion() {
    // The late way, by looking at the process, agrees with the queue.
    let late = match capture(&[
        state_of(10, 0),
        DarwinEvent::Registered(Ok(false)),
        state_of(10, 0),
        DarwinEvent::Matched(Ok(true)),
        state_of(10, 0),
    ]) {
        DarwinCapture::Captured(watch) => watch,
        other => panic!("{other:?}"),
    };
    assert!(!late.queued);
    let seen = |state| late.has_exited(DarwinObservation::State(Ok(state)));
    assert_eq!(seen(Some(darwin(10, 0))), Ok(false));
    assert_eq!(seen(Some(darwin(10, P_WEXIT))), Ok(false));
    assert_eq!(seen(Some(ProcessState { status: SZOMB, ..darwin(10, P_WEXIT) })), Ok(true));
    assert_eq!(seen(None), Ok(true));
}
