//! Watching the exit of a runtime on macOS, without reaping it or following a recycled PID.

use vstd::prelude::*;

use crate::host::{IoError, IoErrorKind};
use crate::identity::{ENOENT, ESRCH};
use crate::process_exit::{ExitError, FileKey, POLLERR, POLLIN, POLLNVAL, candidate};

verus! {

/// Error number of a call that a signal interrupted.
pub const EINTR: i32 = 4;

/// Error number of a descriptor that is not open.
pub const EBADF: i32 = 9;

/// The process is working on its exit.
pub const P_WEXIT: i32 = 0x2000;

/// The process has exited and was not reaped.
pub const SZOMB: u8 = 5;

/// The fewest bytes that identify a process.
pub const IDENTITY_BYTES: usize = 44;

/// A process instance as the host reports it.
#[derive(Clone, Copy, Debug, PartialEq, Eq, Structural)]
pub struct ProcessState {
    /// Seconds of the birth.
    pub birth_seconds: i64,
    /// Microseconds of the birth.
    pub birth_micros: i32,
    pub status: u8,
    pub flags: i32,
}

/// Whether two reports are of the same instance.
pub open spec fn same_birth(a: ProcessState, b: ProcessState) -> bool {
    a.birth_seconds == b.birth_seconds && a.birth_micros == b.birth_micros
}

/// The number that bytes stand for, lowest first.
pub open spec fn low_first(bytes: Seq<u8>) -> nat
    decreases bytes.len(),
{
    if bytes.len() == 0 {
        0
    } else {
        bytes[0] as nat + 256 * low_first(bytes.drop_first())
    }
}

/// The 32-bit integer that four bytes stand for.
pub open spec fn int32_at(bytes: Seq<u8>, at: int) -> int {
    let n = low_first(bytes.subrange(at, at + 4)) as int;
    if n < 0x8000_0000 {
        n
    } else {
        n - 0x1_0000_0000
    }
}

/// The 64-bit integer that eight bytes stand for.
pub open spec fn int64_at(bytes: Seq<u8>, at: int) -> int {
    let n = low_first(bytes.subrange(at, at + 8)) as int;
    if n < 0x8000_0000_0000_0000 {
        n
    } else {
        n - 0x1_0000_0000_0000_0000
    }
}

/// The process that the host's report describes. The report begins with the time of birth; the
/// flags, the status and the PID follow.
pub open spec fn reported_state(pid: i32, bytes: Seq<u8>, size: nat) -> Result<
    Option<ProcessState>,
    ExitError,
> {
    if size == 0 {
        Ok(None)
    } else if size < IDENTITY_BYTES || size > bytes.len() {
        Err(ExitError::IncompleteIdentity)
    } else if int32_at(bytes, 40) != pid {
        Err(ExitError::OtherProcess)
    } else {
        Ok(
            Some(
                ProcessState {
                    birth_seconds: int64_at(bytes, 0) as i64,
                    birth_micros: int32_at(bytes, 8) as i32,
                    status: bytes[36],
                    flags: int32_at(bytes, 32) as i32,
                },
            ),
        )
    }
}

proof fn lemma_low_first_4(b: Seq<u8>)
    requires
        b.len() == 4,
    ensures
        low_first(b) == b[0] + 0x100 * b[1] + 0x1_0000 * b[2] + 0x100_0000 * b[3],
{
    reveal_with_fuel(low_first, 5);
    let c = b.drop_first();
    let d = c.drop_first();
    let e = d.drop_first();
    assert(e.drop_first().len() == 0);
    assert(c[0] == b[1] && d[0] == b[2] && e[0] == b[3]);
}

proof fn lemma_low_first_8(b: Seq<u8>)
    requires
        b.len() == 8,
    ensures
        low_first(b) == low_first(b.subrange(0, 4)) + 0x1_0000_0000 * low_first(b.subrange(4, 8)),
{
    reveal_with_fuel(low_first, 5);
    lemma_low_first_4(b.subrange(0, 4));
    let c = b.drop_first();
    let d = c.drop_first();
    let e = d.drop_first();
    assert(e.drop_first() =~= b.subrange(4, 8));
    assert(c[0] == b[1] && d[0] == b[2] && e[0] == b[3]);
    assert(low_first(e) == b[3] + 256 * low_first(b.subrange(4, 8)));
    assert(low_first(d) == b[2] + 256 * low_first(e));
    assert(low_first(c) == b[1] + 256 * low_first(d));
    assert(low_first(b) == b[0] + 256 * low_first(c));
}

fn read_u32(bytes: &[u8], at: usize) -> (r: u32)
    requires
        at + 4 <= bytes@.len(),
    ensures
        r == low_first(bytes@.subrange(at as int, at + 4)),
{
    proof {
        lemma_low_first_4(bytes@.subrange(at as int, at + 4));
    }
    bytes[at] as u32 + bytes[at + 1] as u32 * 0x100 + bytes[at + 2] as u32 * 0x1_0000 + bytes[at
        + 3] as u32 * 0x100_0000
}

fn read_i32(bytes: &[u8], at: usize) -> (r: i32)
    requires
        at + 4 <= bytes@.len(),
    ensures
        r == int32_at(bytes@, at as int),
{
    let n: u32 = read_u32(bytes, at);
    if n < 0x8000_0000 {
        n as i32
    } else {
        (n as i64 - 0x1_0000_0000) as i32
    }
}

fn read_first_i64(bytes: &[u8]) -> (r: i64)
    requires
        8 <= bytes@.len(),
    ensures
        r == int64_at(bytes@, 0),
{
    let low: u32 = read_u32(bytes, 0);
    let high: u32 = read_u32(bytes, 4);
    proof {
        let b = bytes@.subrange(0, 8);
        lemma_low_first_8(b);
        assert(b.subrange(0, 4) =~= bytes@.subrange(0, 4));
        assert(b.subrange(4, 8) =~= bytes@.subrange(4, 8));
    }
    let n: i128 = low as i128 + high as i128 * 0x1_0000_0000;
    if n < 0x8000_0000_0000_0000 {
        n as i64
    } else {
        (n - 0x1_0000_0000_0000_0000) as i64
    }
}

/// The process that the host's report describes. `size` is what the host says it wrote.
pub fn process_state(pid: i32, bytes: &[u8], size: usize) -> (r: Result<
    Option<ProcessState>,
    ExitError,
>)
    ensures
        r == reported_state(pid, bytes@, size as nat),
{
    if size == 0 {
        return Ok(None);
    }
    if size < IDENTITY_BYTES || size > bytes.len() {
        return Err(ExitError::IncompleteIdentity);
    }
    if read_i32(bytes, 40) != pid {
        return Err(ExitError::OtherProcess);
    }
    Ok(
        Some(
            ProcessState {
                birth_seconds: read_first_i64(bytes),
                birth_micros: read_i32(bytes, 8),
                status: bytes[36],
                flags: read_i32(bytes, 32),
            },
        ),
    )
}

/// What the host says of a descriptor.
#[derive(Clone, Copy, Debug, PartialEq, Eq, Structural)]
pub enum DescriptorFact {
    /// It failed to say anything.
    Failed(IoError),
    /// It said too little.
    Incomplete,
    /// The file behind the descriptor.
    File(FileKey),
}

/// Whether a process holds the lock file of a sandbox. A process or a descriptor that is not there
/// does not.
pub fn lifecycle_matches(actual: DescriptorFact, expected: Result<FileKey, IoError>) -> (r: Result<
    bool,
    ExitError,
>)
    ensures
        r == match actual {
            DescriptorFact::Failed(e) => if e.raw == Some(ESRCH) || e.raw == Some(EBADF) || e.raw
                == Some(ENOENT) {
                Ok::<bool, ExitError>(false)
            } else {
                Err::<bool, ExitError>(ExitError::Host(e))
            },
            DescriptorFact::Incomplete => Err::<bool, ExitError>(ExitError::IncompleteDescriptor),
            DescriptorFact::File(a) => match expected {
                Err(e) => Err::<bool, ExitError>(ExitError::Host(e)),
                Ok(b) => Ok::<bool, ExitError>(a == b),
            },
        },
{
    match actual {
        DescriptorFact::Failed(e) => {
            let gone = match e.raw {
                Some(raw) => raw == ESRCH || raw == EBADF || raw == ENOENT,
                None => false,
            };
            if gone {
                Ok(false)
            } else {
                Err(ExitError::Host(e))
            }
        },
        DescriptorFact::Incomplete => Err(ExitError::IncompleteDescriptor),
        DescriptorFact::File(a) => match expected {
            Err(e) => Err(ExitError::Host(e)),
            Ok(b) => Ok(a.dev == b.dev && a.ino == b.ino),
        },
    }
}

// ------------------------------------------------------------------------------------------------
// Registration
// ------------------------------------------------------------------------------------------------

/// What comes next in registering for the exit of a process.
#[derive(Clone, Copy, Debug, PartialEq, Eq, Structural)]
pub enum RegisterStep {
    /// Open a queue.
    Open,
    /// Keep the queue from programs that are started.
    Close,
    /// Ask for the exit.
    Register,
    /// The queue reports the exit.
    Registered,
    /// There is no such process.
    Gone,
    /// The host refused.
    Failed(IoError),
}

/// The step after the result of a call.
pub open spec fn register_next(step: RegisterStep, result: Result<(), IoError>) -> RegisterStep {
    match (step, result) {
        (RegisterStep::Open, Ok(_)) => RegisterStep::Close,
        (RegisterStep::Open, Err(e)) => RegisterStep::Failed(e),
        (RegisterStep::Close, Ok(_)) => RegisterStep::Register,
        (RegisterStep::Close, Err(e)) => RegisterStep::Failed(e),
        (RegisterStep::Register, Ok(_)) => RegisterStep::Registered,
        (RegisterStep::Register, Err(e)) => if e.raw == Some(EINTR) {
            RegisterStep::Register
        } else if e.raw == Some(ESRCH) {
            RegisterStep::Gone
        } else {
            RegisterStep::Failed(e)
        },
        _ => step,
    }
}

impl RegisterStep {
    /// Takes the result of a call into account. An interrupted registration is tried again.
    pub fn register_exit(self, result: Result<(), IoError>) -> (r: RegisterStep)
        ensures
            r == register_next(self, result),
    {
        match (self, result) {
            (RegisterStep::Open, Ok(_)) => RegisterStep::Close,
            (RegisterStep::Open, Err(e)) => RegisterStep::Failed(e),
            (RegisterStep::Close, Ok(_)) => RegisterStep::Register,
            (RegisterStep::Close, Err(e)) => RegisterStep::Failed(e),
            (RegisterStep::Register, Ok(_)) => RegisterStep::Registered,
            (RegisterStep::Register, Err(e)) => match e.raw {
                Some(EINTR) => RegisterStep::Register,
                Some(ESRCH) => RegisterStep::Gone,
                _ => RegisterStep::Failed(e),
            },
            _ => self,
        }
    }
}

// ------------------------------------------------------------------------------------------------
// Capture
// ------------------------------------------------------------------------------------------------

/// A watched process.
#[derive(Clone, Copy, Debug, PartialEq, Eq, Structural)]
pub struct RuntimeExit {
    pub pid: i32,
    /// The instance that is watched.
    pub identity: ProcessState,
    /// Whether a queue reports the exit; else the process is looked at.
    pub queued: bool,
}

/// What comes next in beginning to watch a runtime.
#[derive(Clone, Copy, Debug, PartialEq, Eq, Structural)]
pub enum DarwinCapture {
    /// See which instance has the PID.
    Identify { pid: i32 },
    /// Register for its exit.
    Register { pid: i32, identity: ProcessState },
    /// See whether it still has the PID.
    Recheck { watch: RuntimeExit },
    /// See whether it holds the lock of the sandbox.
    Match { watch: RuntimeExit },
    /// See whether it still has the PID.
    Confirm { watch: RuntimeExit, matches: bool },
    /// The process is watched.
    Captured(RuntimeExit),
    /// There is nothing to watch.
    Nothing,
    /// The host does not say.
    Failed(ExitError),
}

/// What happened in beginning to watch.
#[derive(Clone, Copy, Debug, PartialEq, Eq)]
pub enum DarwinEvent {
    /// The instance that has the PID.
    State(Result<Option<ProcessState>, ExitError>),
    /// Whether a queue reports the exit.
    Registered(Result<bool, ExitError>),
    /// Whether the process holds the lock.
    Matched(Result<bool, ExitError>),
}

/// Whether a report is of a watched instance that has not exited.
pub open spec fn still_there(watch: RuntimeExit, state: ProcessState) -> bool {
    same_birth(state, watch.identity) && state.status != SZOMB
}

/// Whether a process works on its exit.
pub open spec fn is_exiting(state: ProcessState) -> bool {
    state.flags & P_WEXIT != 0
}

/// The step after an event. An event that the step does not expect changes nothing.
pub open spec fn darwin_next(step: DarwinCapture, event: DarwinEvent) -> DarwinCapture {
    match (step, event) {
        (DarwinCapture::Identify { pid }, DarwinEvent::State(Ok(Some(identity)))) => if identity.status
            == SZOMB {
            DarwinCapture::Nothing
        } else {
            DarwinCapture::Register { pid, identity }
        },
        (DarwinCapture::Identify { .. }, DarwinEvent::State(Ok(None))) => DarwinCapture::Nothing,
        (DarwinCapture::Identify { .. }, DarwinEvent::State(Err(e))) => DarwinCapture::Failed(e),
        (DarwinCapture::Register { pid, identity }, DarwinEvent::Registered(Ok(queued))) => {
            DarwinCapture::Recheck { watch: RuntimeExit { pid, identity, queued } }
        },
        (DarwinCapture::Register { .. }, DarwinEvent::Registered(Err(e))) => DarwinCapture::Failed(
            e,
        ),
        (DarwinCapture::Recheck { watch }, DarwinEvent::State(Ok(Some(state)))) => if still_there(
            watch,
            state,
        ) {
            DarwinCapture::Match { watch }
        } else {
            DarwinCapture::Nothing
        },
        (DarwinCapture::Recheck { .. }, DarwinEvent::State(Ok(None))) => DarwinCapture::Nothing,
        (DarwinCapture::Recheck { .. }, DarwinEvent::State(Err(e))) => DarwinCapture::Failed(e),
        (DarwinCapture::Match { watch }, DarwinEvent::Matched(Ok(matches))) => {
            DarwinCapture::Confirm { watch, matches }
        },
        (DarwinCapture::Match { .. }, DarwinEvent::Matched(Err(e))) => DarwinCapture::Failed(e),
        (DarwinCapture::Confirm { watch, matches }, DarwinEvent::State(Ok(Some(state)))) => {
            if !still_there(watch, state) {
                DarwinCapture::Nothing
            } else if matches {
                DarwinCapture::Captured(watch)
            } else if is_exiting(state) {
                DarwinCapture::Captured(RuntimeExit { queued: false, ..watch })
            } else {
                DarwinCapture::Nothing
            }
        },
        (DarwinCapture::Confirm { .. }, DarwinEvent::State(Ok(None))) => DarwinCapture::Nothing,
        (DarwinCapture::Confirm { .. }, DarwinEvent::State(Err(e))) => DarwinCapture::Failed(e),
        _ => step,
    }
}

/// Whether a report is of a watched instance that has not exited.
fn is_still_there(watch: RuntimeExit, state: ProcessState) -> (r: bool)
    ensures
        r == still_there(watch, state),
{
    state.birth_seconds == watch.identity.birth_seconds && state.birth_micros
        == watch.identity.birth_micros && state.status != SZOMB
}

impl DarwinCapture {
    /// Begins to watch the process that a row records.
    pub fn capture(pid: Option<i32>) -> (r: DarwinCapture)
        ensures
            r == match candidate(pid) {
                Some(p) => DarwinCapture::Identify { pid: p },
                None => DarwinCapture::Nothing,
            },
    {
        match pid {
            Some(p) => {
                if p > 0 {
                    DarwinCapture::Identify { pid: p }
                } else {
                    DarwinCapture::Nothing
                }
            },
            None => DarwinCapture::Nothing,
        }
    }

    /// Takes an event into account.
    pub fn advance(self, event: DarwinEvent) -> (r: DarwinCapture)
        ensures
            r == darwin_next(self, event),
    {
        match (self, event) {
            (DarwinCapture::Identify { pid }, DarwinEvent::State(Ok(Some(identity)))) => {
                if identity.status == SZOMB {
                    DarwinCapture::Nothing
                } else {
                    DarwinCapture::Register { pid, identity }
                }
            },
            (DarwinCapture::Identify { .. }, DarwinEvent::State(Ok(None))) => {
                DarwinCapture::Nothing
            },
            (DarwinCapture::Identify { .. }, DarwinEvent::State(Err(e))) => {
                DarwinCapture::Failed(e)
            },
            (DarwinCapture::Register { pid, identity }, DarwinEvent::Registered(Ok(queued))) => {
                DarwinCapture::Recheck { watch: RuntimeExit { pid, identity, queued } }
            },
            (DarwinCapture::Register { .. }, DarwinEvent::Registered(Err(e))) => {
                DarwinCapture::Failed(e)
            },
            (DarwinCapture::Recheck { watch }, DarwinEvent::State(Ok(Some(state)))) => {
                if is_still_there(watch, state) {
                    DarwinCapture::Match { watch }
                } else {
                    DarwinCapture::Nothing
                }
            },
            (DarwinCapture::Recheck { .. }, DarwinEvent::State(Ok(None))) => {
                DarwinCapture::Nothing
            },
            (DarwinCapture::Recheck { .. }, DarwinEvent::State(Err(e))) => {
                DarwinCapture::Failed(e)
            },
            (DarwinCapture::Match { watch }, DarwinEvent::Matched(Ok(matches))) => {
                DarwinCapture::Confirm { watch, matches }
            },
            (DarwinCapture::Match { .. }, DarwinEvent::Matched(Err(e))) => {
                DarwinCapture::Failed(e)
            },
            (DarwinCapture::Confirm { watch, matches }, DarwinEvent::State(Ok(Some(state)))) => {
                if !is_still_there(watch, state) {
                    DarwinCapture::Nothing
                } else if matches {
                    DarwinCapture::Captured(watch)
                } else if state.flags & P_WEXIT != 0 {
                    DarwinCapture::Captured(
                        RuntimeExit { pid: watch.pid, identity: watch.identity, queued: false },
                    )
                } else {
                    DarwinCapture::Nothing
                }
            },
            (DarwinCapture::Confirm { .. }, DarwinEvent::State(Ok(None))) => {
                DarwinCapture::Nothing
            },
            (DarwinCapture::Confirm { .. }, DarwinEvent::State(Err(e))) => {
                DarwinCapture::Failed(e)
            },
            _ => self,
        }
    }
}

/// The step that a list of events leads to.
pub open spec fn darwin_run(pid: Option<i32>, events: Seq<DarwinEvent>) -> DarwinCapture
    decreases events.len(),
{
    if events.len() == 0 {
        match candidate(pid) {
            Some(p) => DarwinCapture::Identify { pid: p },
            None => DarwinCapture::Nothing,
        }
    } else {
        darwin_next(darwin_run(pid, events.drop_last()), events.last())
    }
}

/// Whether a list of events shows that the instance lives and either holds the lock or works on
/// its exit.
pub open spec fn shows_owner(events: Seq<DarwinEvent>, watch: RuntimeExit) -> bool {
    exists|state: ProcessState|
        #[trigger] still_there(watch, state) && events.contains(DarwinEvent::State(Ok(Some(state))))
            && (events.contains(DarwinEvent::Matched(Ok(true))) || (is_exiting(state)
            && !watch.queued))
}

/// Only an instance of the recorded process is watched that holds the lock of the sandbox, or that
/// works on its exit; an unrelated live process never is.
pub proof fn only_owners_are_watched(pid: Option<i32>, events: Seq<DarwinEvent>)
    ensures
        match darwin_run(pid, events) {
            DarwinCapture::Captured(watch) => pid == Some(watch.pid) && shows_owner(events, watch),
            _ => true,
        },
{
    lemma_owners(pid, events);
}

proof fn lemma_owners(pid: Option<i32>, events: Seq<DarwinEvent>)
    ensures
        match darwin_run(pid, events) {
            DarwinCapture::Identify { pid: p } => pid == Some(p),
            DarwinCapture::Register { pid: p, .. } => pid == Some(p),
            DarwinCapture::Recheck { watch } => pid == Some(watch.pid),
            DarwinCapture::Match { watch } => pid == Some(watch.pid),
            DarwinCapture::Confirm { watch, matches } => pid == Some(watch.pid) && (matches
                ==> events.contains(DarwinEvent::Matched(Ok(true)))),
            DarwinCapture::Captured(watch) => pid == Some(watch.pid) && shows_owner(events, watch),
            _ => true,
        },
    decreases events.len(),
{
    if events.len() > 0 {
        let before = events.drop_last();
        lemma_owners(pid, before);
        assert(events[events.len() - 1] == events.last());
        assert(events.contains(events.last()));
        assert forall|e: DarwinEvent| before.contains(e) implies events.contains(e) by {
            let i = choose|i: int| 0 <= i < before.len() && before[i] == e;
            assert(events[i] == e);
        }
        match (darwin_run(pid, before), events.last()) {
            (DarwinCapture::Captured(watch), _) => {
                let state = choose|state: ProcessState|
                    #[trigger] still_there(watch, state) && before.contains(
                        DarwinEvent::State(Ok(Some(state))),
                    ) && (before.contains(DarwinEvent::Matched(Ok(true))) || (is_exiting(state)
                        && !watch.queued));
                assert(still_there(watch, state));
            },
            (DarwinCapture::Confirm { watch, matches }, DarwinEvent::State(Ok(Some(state)))) => {
                if still_there(watch, state) {
                    let late = RuntimeExit { queued: false, ..watch };
                    assert(still_there(late, state));
                }
            },
            _ => {},
        }
    }
}

/// What the host says of a watched process: its queue where it has one, else the process.
#[derive(Clone, Copy, Debug, PartialEq, Eq)]
pub enum DarwinObservation {
    Queue(Result<u16, IoError>),
    State(Result<Option<ProcessState>, ExitError>),
}

/// Whether a watched process has exited: its queue reports it, or the PID is free, was taken by
/// another instance, or belongs to a process that was not reaped.
pub open spec fn darwin_exited(watch: RuntimeExit, seen: DarwinObservation) -> Result<
    bool,
    ExitError,
> {
    match seen {
        DarwinObservation::Queue(Err(e)) => if e.kind == IoErrorKind::Interrupted {
            Ok(false)
        } else {
            Err(ExitError::Host(e))
        },
        DarwinObservation::Queue(Ok(revents)) => if revents & (POLLNVAL | POLLERR) != 0 {
            Err(ExitError::InvalidQueue)
        } else {
            Ok(revents & POLLIN != 0)
        },
        DarwinObservation::State(Err(e)) => Err(e),
        DarwinObservation::State(Ok(None)) => Ok(true),
        DarwinObservation::State(Ok(Some(state))) => Ok(!still_there(watch, state)),
    }
}

impl RuntimeExit {
    /// Whether the watched process has exited, from what the host says of it.
    pub fn has_exited(&self, seen: DarwinObservation) -> (r: Result<bool, ExitError>)
        requires
            self.queued <==> seen is Queue,
        ensures
            r == darwin_exited(*self, seen),
    {
        match seen {
            DarwinObservation::Queue(Err(e)) => {
                if e.kind == IoErrorKind::Interrupted {
                    Ok(false)
                } else {
                    Err(ExitError::Host(e))
                }
            },
            DarwinObservation::Queue(Ok(revents)) => {
                if revents & (POLLNVAL | POLLERR) != 0 {
                    Err(ExitError::InvalidQueue)
                } else {
                    Ok(revents & POLLIN != 0)
                }
            },
            DarwinObservation::State(Err(e)) => Err(e),
            DarwinObservation::State(Ok(None)) => Ok(true),
            DarwinObservation::State(Ok(Some(state))) => Ok(!is_still_there(*self, state)),
        }
    }
}

/// A registration that succeeds reports the exit; one that is interrupted is tried again; a process
/// that is gone leaves nothing to register for; and every other refusal is reported.
pub proof fn registrations_get_there(step: RegisterStep, e: IoError)
    ensures
        register_next(RegisterStep::Open, Ok(())) == RegisterStep::Close,
        register_next(RegisterStep::Close, Ok(())) == RegisterStep::Register,
        register_next(RegisterStep::Register, Ok(())) == RegisterStep::Registered,
        register_next(RegisterStep::Open, Err(e)) == RegisterStep::Failed(e),
        register_next(RegisterStep::Close, Err(e)) == RegisterStep::Failed(e),
        e.raw == Some(4i32) ==> register_next(RegisterStep::Register, Err(e))
            == RegisterStep::Register,
        e.raw == Some(3i32) ==> register_next(RegisterStep::Register, Err(e)) == RegisterStep::Gone,
        e.raw != Some(4i32) && e.raw != Some(3i32) ==> register_next(
            RegisterStep::Register,
            Err(e),
        ) == RegisterStep::Failed(e),
        step == RegisterStep::Registered || step == RegisterStep::Gone || step is Failed
            ==> register_next(step, Ok(())) == step && register_next(step, Err(e)) == step,
{
}

/// A runtime that holds the lock of its sandbox is watched: the instance is identified, registered
/// for and seen again on both sides of the look at its lock. One that has let go of the lock while
/// it works on its exit is watched too, but looked at and not waited for. What is not there, or is
/// another instance, or a zombie, is not watched.
pub proof fn owners_are_watched(
    pid: i32,
    identity: ProcessState,
    queued: bool,
    state: ProcessState,
    matches: bool,
)
    ensures
        ({
            let watch = RuntimeExit { pid, identity, queued };
            let there = state.birth_seconds == identity.birth_seconds && state.birth_micros
                == identity.birth_micros && state.status != 5;
            let found = darwin_next(
                DarwinCapture::Identify { pid },
                DarwinEvent::State(Ok(Some(identity))),
            );
            let seen = DarwinEvent::State(Ok(Some(state)));
            let again = darwin_next(DarwinCapture::Recheck { watch }, seen);
            let end = darwin_next(DarwinCapture::Confirm { watch, matches }, seen);
            &&& identity.status != 5 ==> found == (DarwinCapture::Register { pid, identity })
            &&& identity.status == 5 ==> found == DarwinCapture::Nothing
            &&& darwin_next(
                DarwinCapture::Register { pid, identity },
                DarwinEvent::Registered(Ok(queued)),
            ) == (DarwinCapture::Recheck { watch })
            &&& there ==> again == (DarwinCapture::Match { watch })
            &&& !there ==> again == DarwinCapture::Nothing && end == DarwinCapture::Nothing
            &&& darwin_next(DarwinCapture::Match { watch }, DarwinEvent::Matched(Ok(matches))) == (
            DarwinCapture::Confirm { watch, matches })
            &&& there && matches ==> end == DarwinCapture::Captured(watch)
            &&& there && !matches && state.flags & 0x2000 != 0 ==> end == DarwinCapture::Captured(
                RuntimeExit { pid, identity, queued: false },
            )
            &&& there && !matches && state.flags & 0x2000 == 0 ==> end == DarwinCapture::Nothing
        }),
{
}

/// A PID that is free leaves nothing to watch, a host that does not say fails the watch, and
/// nothing follows the end.
pub proof fn watches_that_cannot_begin(
    step: DarwinCapture,
    event: DarwinEvent,
    x: ExitError,
)
    ensures
        step is Identify || step is Recheck || step is Confirm ==> darwin_next(
            step,
            DarwinEvent::State(Ok(None)),
        ) == DarwinCapture::Nothing && darwin_next(step, DarwinEvent::State(Err(x)))
            == DarwinCapture::Failed(x),
        step is Register ==> darwin_next(step, DarwinEvent::Registered(Err(x)))
            == DarwinCapture::Failed(x),
        step is Match ==> darwin_next(step, DarwinEvent::Matched(Err(x))) == DarwinCapture::Failed(
            x,
        ),
        step is Captured || step == DarwinCapture::Nothing || step is Failed ==> darwin_next(
            step,
            event,
        ) == step,
        (step is Identify || step is Recheck || step is Confirm) && !(event is State)
            ==> darwin_next(step, event) == step,
        step is Register && !(event is Registered) ==> darwin_next(step, event) == step,
        step is Match && !(event is Matched) ==> darwin_next(step, event) == step,
{
}

/// A watched process has exited exactly where its queue says so, or where the PID is free, belongs
/// to another instance, or to a zombie. An interrupted look says that it has not, and a queue that
/// is not valid says nothing.
pub proof fn exits_are_seen(
    watch: RuntimeExit,
    state: ProcessState,
    revents: u16,
    e: IoError,
    x: ExitError,
)
    ensures
        darwin_exited(watch, DarwinObservation::State(Ok(None))) == Ok::<bool, ExitError>(true),
        darwin_exited(watch, DarwinObservation::State(Ok(Some(state)))) == Ok::<bool, ExitError>(
            state.birth_seconds != watch.identity.birth_seconds || state.birth_micros
                != watch.identity.birth_micros || state.status == 5,
        ),
        darwin_exited(watch, DarwinObservation::State(Err(x))) == Err::<bool, ExitError>(x),
        e.kind == IoErrorKind::Interrupted ==> darwin_exited(watch, DarwinObservation::Queue(Err(e)))
            == Ok::<bool, ExitError>(false),
        e.kind != IoErrorKind::Interrupted ==> darwin_exited(watch, DarwinObservation::Queue(Err(e)))
            == Err::<bool, ExitError>(ExitError::Host(e)),
        revents & (POLLNVAL | POLLERR) != 0 ==> darwin_exited(
            watch,
            DarwinObservation::Queue(Ok(revents)),
        ) == Err::<bool, ExitError>(ExitError::InvalidQueue),
        revents & (POLLNVAL | POLLERR) == 0 ==> darwin_exited(
            watch,
            DarwinObservation::Queue(Ok(revents)),
        ) == Ok::<bool, ExitError>(revents & POLLIN != 0),
{
}

/// A report describes the process that was asked for, with each number from its own place: the
/// birth at the front, then flags, status and PID. A report of nothing is of no process, one that
/// is too short is refused, and so is one of another process.
pub proof fn reports_describe_their_process(pid: i32, bytes: Seq<u8>, size: nat)
    ensures
        size == 0 ==> reported_state(pid, bytes, size) == Ok::<Option<ProcessState>, ExitError>(
            None,
        ),
        0 < size < 44 || size > bytes.len() ==> size == 0 || reported_state(pid, bytes, size)
            == Err::<Option<ProcessState>, ExitError>(ExitError::IncompleteIdentity),
        44 <= size <= bytes.len() && int32_at(bytes, 40) != pid ==> reported_state(
            pid,
            bytes,
            size,
        ) == Err::<Option<ProcessState>, ExitError>(ExitError::OtherProcess),
        44 <= size <= bytes.len() && int32_at(bytes, 40) == pid ==> {
            let state = reported_state(pid, bytes, size);
            &&& state is Ok && state->Ok_0 is Some
            &&& state->Ok_0->0.birth_seconds == int64_at(bytes, 0) as i64
            &&& state->Ok_0->0.birth_micros == int32_at(bytes, 8) as i32
            &&& state->Ok_0->0.flags == int32_at(bytes, 32) as i32
            &&& state->Ok_0->0.status == bytes[36]
        },
{
}

/// Numbers in a report are read lowest byte first, and those with the highest bit set are below
/// zero.
pub proof fn numbers_are_read_lowest_first(bytes: Seq<u8>, at: int)
    requires
        0 <= at,
        at + 4 <= bytes.len(),
    ensures
        ({
            let n = bytes[at] as int + 256 * bytes[at + 1] as int + 65536 * bytes[at + 2] as int
                + 16777216 * bytes[at + 3] as int;
            int32_at(bytes, at) == if bytes[at + 3] < 128 {
                n
            } else {
                n - 4294967296
            }
        }),
{
    let b = bytes.subrange(at, at + 4);
    lemma_low_first_4(b);
    assert(b[0] == bytes[at] && b[1] == bytes[at + 1] && b[2] == bytes[at + 2] && b[3] == bytes[at
        + 3]);
}

/// A number of eight bytes is its lower half and, times two to the thirty-second, its upper half,
/// which alone decides whether it is below zero.
pub proof fn long_numbers_have_two_halves(bytes: Seq<u8>, at: int)
    requires
        0 <= at,
        at + 8 <= bytes.len(),
    ensures
        int64_at(bytes, at) == 4294967296 * int32_at(bytes, at + 4) + (if int32_at(bytes, at) < 0 {
            int32_at(bytes, at) + 4294967296
        } else {
            int32_at(bytes, at)
        }),
{
    let b = bytes.subrange(at, at + 8);
    lemma_low_first_8(b);
    assert(b.subrange(0, 4) =~= bytes.subrange(at, at + 4));
    assert(b.subrange(4, 8) =~= bytes.subrange(at + 4, at + 8));
    lemma_low_first_4(b.subrange(0, 4));
    lemma_low_first_4(b.subrange(4, 8));
}

/// What the host says in numbers: that a call was interrupted, that a descriptor is not open, that
/// a process is exiting or a zombie, and how long its report is at least.
pub proof fn darwin_has_its_numbers()
    ensures
        EINTR == 4,
        EBADF == 9,
        P_WEXIT == 0x2000,
        SZOMB == 5,
        IDENTITY_BYTES == 44,
{
}

} // verus!
