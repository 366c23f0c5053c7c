//! Watching the exit of a runtime on Linux, without reaping it or following a recycled PID.

use vstd::prelude::*;

use crate::host::{IoError, IoErrorKind};
use crate::identity::ESRCH;
use crate::text::{push_signed, signed_decimal};

verus! {

/// Poll result: there is something to read.
pub const POLLIN: u16 = 0x1;

/// Poll result: the handle failed.
pub const POLLERR: u16 = 0x8;

/// Poll result: the other side is gone.
pub const POLLHUP: u16 = 0x10;

/// Poll result: the handle is not valid.
pub const POLLNVAL: u16 = 0x20;

/// What is wrong with the watch of an exit.
#[derive(Clone, Copy, Debug, PartialEq, Eq, Structural)]
pub enum ExitError {
    /// The host reported a failure.
    Host(IoError),
    /// The handle of the process is not valid.
    InvalidHandle,
    /// The queue of the process is not valid.
    InvalidQueue,
    /// The host reported too little of a descriptor.
    IncompleteDescriptor,
    /// The host reported too little of a process.
    IncompleteIdentity,
    /// The host reported another process.
    OtherProcess,
}

impl ExitError {
    /// What is wrong, in words; what the host reports has words of its own.
    pub open spec fn text(self) -> Option<Seq<char>> {
        match self {
            ExitError::Host(_) => None,
            ExitError::InvalidHandle => Some("invalid runtime exit handle"@),
            ExitError::InvalidQueue => Some("invalid runtime exit kqueue"@),
            ExitError::IncompleteDescriptor => Some(
                "incomplete runtime lifecycle descriptor information"@,
            ),
            ExitError::IncompleteIdentity => Some("incomplete Darwin process identity"@),
            ExitError::OtherProcess => Some(
                "Darwin process identity does not match requested PID"@,
            ),
        }
    }

    /// What is wrong, in words; what the host reports has words of its own.
    pub fn message(self) -> (r: Option<&'static str>)
        ensures
            match r {
                Some(m) => self.text() == Some(m@),
                None => self.text() is None,
            },
    {
        match self {
            ExitError::Host(_) => None,
            ExitError::InvalidHandle => Some("invalid runtime exit handle"),
            ExitError::InvalidQueue => Some("invalid runtime exit kqueue"),
            ExitError::IncompleteDescriptor => Some(
                "incomplete runtime lifecycle descriptor information",
            ),
            ExitError::IncompleteIdentity => Some("incomplete Darwin process identity"),
            ExitError::OtherProcess => Some("Darwin process identity does not match requested PID"),
        }
    }
}

/// A file as the host identifies it: its device and its number there.
#[derive(Clone, Copy, Debug, PartialEq, Eq, Structural)]
pub struct FileKey {
    pub dev: u64,
    pub ino: u64,
}

/// The PID that a row records, where it can be one.
pub open spec fn candidate(pid: Option<i32>) -> Option<i32> {
    match pid {
        Some(p) => if p > 0 {
            Some(p)
        } else {
            None
        },
        None => None,
    }
}

/// Where the host shows a descriptor of a process.
pub fn descriptor_path(pid: i32, fd: i32) -> (r: String)
    ensures
        r@ == "/proc/"@ + signed_decimal(pid as int) + "/fd/"@ + signed_decimal(fd as int),
{
    let mut path = "/proc/".to_owned();
    push_signed(&mut path, pid as i64);
    path.append("/fd/");
    push_signed(&mut path, fd as i64);
    path
}

/// Whether a process holds the lock file of a sandbox: its descriptor is that very file. A
/// descriptor that is not there is another one. `expected` is read only where there is one.
pub fn lifecycle_matches(actual: Result<FileKey, IoError>, expected: Result<FileKey, IoError>) -> (r:
    Result<bool, ExitError>)
    ensures
        r == match actual {
            Err(e) => if e.kind == IoErrorKind::NotFound {
                Ok::<bool, ExitError>(false)
            } else {
                Err::<bool, ExitError>(ExitError::Host(e))
            },
            Ok(a) => match expected {
                Err(e) => Err::<bool, ExitError>(ExitError::Host(e)),
                Ok(b) => Ok::<bool, ExitError>(a == b),
            },
        },
{
    match actual {
        Err(e) => {
            if e.kind == IoErrorKind::NotFound {
                Ok(false)
            } else {
                Err(ExitError::Host(e))
            }
        },
        Ok(a) => match expected {
            Err(e) => Err(ExitError::Host(e)),
            Ok(b) => Ok(a.dev == b.dev && a.ino == b.ino),
        },
    }
}

/// Where the descriptor of a process points, where it is open.
pub fn lifecycle_link(link: Result<String, IoError>) -> (r: Result<Option<String>, ExitError>)
    ensures
        match link {
            Ok(path) => r == Ok::<Option<String>, ExitError>(Some(path)),
            Err(e) => if e.kind == IoErrorKind::NotFound {
                r == Ok::<Option<String>, ExitError>(None)
            } else {
                r == Err::<Option<String>, ExitError>(ExitError::Host(e))
            },
        },
{
    match link {
        Ok(path) => Ok(Some(path)),
        Err(e) => {
            if e.kind == IoErrorKind::NotFound {
                Ok(None)
            } else {
                Err(ExitError::Host(e))
            }
        },
    }
}

/// What comes next in beginning to watch a runtime.
#[derive(Clone, Copy, Debug, PartialEq, Eq, Structural)]
pub enum CaptureStep {
    /// Open a handle that follows the process.
    Open { pid: i32 },
    /// See whether the process holds the lock of the sandbox.
    Match { pid: i32 },
    /// The process is watched.
    Captured { pid: i32 },
    /// There is nothing to watch.
    Nothing,
    /// The host does not say.
    Failed(ExitError),
}

/// What happened in beginning to watch.
#[derive(Clone, Copy, Debug, PartialEq, Eq)]
pub enum CaptureEvent {
    Opened(Result<(), IoError>),
    Matched(Result<bool, ExitError>),
}

/// The step after an event. An event that the step does not expect changes nothing.
pub open spec fn capture_next(step: CaptureStep, event: CaptureEvent) -> CaptureStep {
    match (step, event) {
        (CaptureStep::Open { pid }, CaptureEvent::Opened(Ok(_))) => CaptureStep::Match { pid },
        (CaptureStep::Open { pid }, CaptureEvent::Opened(Err(e))) => if e.raw == Some(ESRCH) {
            CaptureStep::Nothing
        } else {
            CaptureStep::Failed(ExitError::Host(e))
        },
        (CaptureStep::Match { pid }, CaptureEvent::Matched(Ok(true))) => CaptureStep::Captured {
            pid,
        },
        (CaptureStep::Match { pid }, CaptureEvent::Matched(Ok(false))) => CaptureStep::Nothing,
        (CaptureStep::Match { pid }, CaptureEvent::Matched(Err(e))) => CaptureStep::Failed(e),
        _ => step,
    }
}

impl CaptureStep {
    /// Begins to watch the process that a row records.
    pub fn capture(pid: Option<i32>) -> (r: CaptureStep)
        ensures
            r == match candidate(pid) {
                Some(p) => CaptureStep::Open { pid: p },
                None => CaptureStep::Nothing,
            },
    {
        match pid {
            Some(p) => {
                if p > 0 {
                    CaptureStep::Open { pid: p }
                } else {
                    CaptureStep::Nothing
                }
            },
            None => CaptureStep::Nothing,
        }
    }

    /// Takes an event into account.
    pub fn advance(self, event: CaptureEvent) -> (r: CaptureStep)
        ensures
            r == capture_next(self, event),
    {
        match (self, event) {
            (CaptureStep::Open { pid }, CaptureEvent::Opened(Ok(_))) => CaptureStep::Match { pid },
            (CaptureStep::Open { .. }, CaptureEvent::Opened(Err(e))) => {
                let gone = match e.raw {
                    Some(raw) => raw == ESRCH,
                    None => false,
                };
                if gone {
                    CaptureStep::Nothing
                } else {
                    CaptureStep::Failed(ExitError::Host(e))
                }
            },
            (CaptureStep::Match { pid }, CaptureEvent::Matched(Ok(true))) => {
                CaptureStep::Captured { pid }
            },
            (CaptureStep::Match { .. }, CaptureEvent::Matched(Ok(false))) => CaptureStep::Nothing,
            (CaptureStep::Match { .. }, CaptureEvent::Matched(Err(e))) => CaptureStep::Failed(e),
            _ => self,
        }
    }
}

/// The step that a list of events leads to.
pub open spec fn capture_run(pid: Option<i32>, events: Seq<CaptureEvent>) -> CaptureStep
    decreases events.len(),
{
    if events.len() == 0 {
        match candidate(pid) {
            Some(p) => CaptureStep::Open { pid: p },
            None => CaptureStep::Nothing,
        }
    } else {
        capture_next(capture_run(pid, events.drop_last()), events.last())
    }
}

/// Only the recorded process is watched, and only where it holds the lock of the sandbox: a stale
/// PID never is.
pub proof fn only_lock_holders_are_watched(pid: Option<i32>, events: Seq<CaptureEvent>)
    ensures
        match capture_run(pid, events) {
            CaptureStep::Captured { pid: p } => pid == Some(p) && p > 0 && events.contains(
                CaptureEvent::Matched(Ok(true)),
            ),
            CaptureStep::Open { pid: p } => pid == Some(p) && p > 0,
            CaptureStep::Match { pid: p } => pid == Some(p) && p > 0,
            _ => true,
        },
    decreases events.len(),
{
    if events.len() > 0 {
        let before = events.drop_last();
        only_lock_holders_are_watched(pid, before);
        assert(events[events.len() - 1] == events.last());
        assert(events.contains(events.last()));
        assert forall|e: CaptureEvent| before.contains(e) implies events.contains(e) by {
            let i = choose|i: int| 0 <= i < before.len() && before[i] == e;
            assert(events[i] == e);
        }
    }
}

/// Whether a watched process has exited, from a poll of its handle: the handle becomes readable
/// once every thread is gone.
pub fn has_exited(poll: Result<u16, IoError>) -> (r: Result<bool, ExitError>)
    ensures
        r == match poll {
            Err(e) => if e.kind == IoErrorKind::Interrupted {
                Ok::<bool, ExitError>(false)
            } else {
                Err::<bool, ExitError>(ExitError::Host(e))
            },
            Ok(revents) => if revents & POLLNVAL != 0 {
                Err::<bool, ExitError>(ExitError::InvalidHandle)
            } else {
                Ok::<bool, ExitError>(revents & (POLLIN | POLLHUP) != 0)
            },
        },
{
    match poll {
        Err(e) => {
            if e.kind == IoErrorKind::Interrupted {
                Ok(false)
            } else {
                Err(ExitError::Host(e))
            }
        },
        Ok(revents) => {
            if revents & POLLNVAL != 0 {
                Err(ExitError::InvalidHandle)
            } else {
                Ok(revents & (POLLIN | POLLHUP) != 0)
            }
        },
    }
}

/// A recorded process that is there and holds the lock of the sandbox is watched. One that is gone
/// or holds another lock leaves nothing to watch, and a host that does not say fails the watch.
pub proof fn lock_holders_are_watched(pid: i32, e: IoError, x: ExitError)
    requires
        pid > 0,
    ensures
        capture_run(Some(pid), Seq::empty()) == (CaptureStep::Open { pid }),
        capture_next(CaptureStep::Open { pid }, CaptureEvent::Opened(Ok(()))) == (
        CaptureStep::Match { pid }),
        capture_next(CaptureStep::Match { pid }, CaptureEvent::Matched(Ok(true))) == (
        CaptureStep::Captured { pid }),
        capture_next(CaptureStep::Match { pid }, CaptureEvent::Matched(Ok(false)))
            == CaptureStep::Nothing,
        capture_next(CaptureStep::Match { pid }, CaptureEvent::Matched(Err(x)))
            == CaptureStep::Failed(x),
        e.raw == Some(3i32) ==> capture_next(
            CaptureStep::Open { pid },
            CaptureEvent::Opened(Err(e)),
        ) == CaptureStep::Nothing,
        e.raw != Some(3i32) ==> capture_next(
            CaptureStep::Open { pid },
            CaptureEvent::Opened(Err(e)),
        ) == CaptureStep::Failed(ExitError::Host(e)),
{
}

/// Where no process is recorded there is nothing to watch, and nothing follows the end.
pub proof fn nothing_follows_a_watch(step: CaptureStep, event: CaptureEvent, pid: Option<i32>)
    ensures
        pid is None || pid->0 <= 0 ==> candidate(pid) is None && capture_run(pid, Seq::empty())
            == CaptureStep::Nothing,
        pid is Some && pid->0 > 0 ==> candidate(pid) == pid,
        step is Captured || step == CaptureStep::Nothing || step is Failed ==> capture_next(
            step,
            event,
        ) == step,
        step is Open && event is Matched ==> capture_next(step, event) == step,
        step is Match && event is Opened ==> capture_next(step, event) == step,
{
}

/// The bits by which a host reports on a handle are its own and no two the same: readable, failed,
/// hung up and not open.
pub proof fn handles_report_in_their_bits()
    ensures
        POLLIN == 0x1,
        POLLERR == 0x8,
        POLLHUP == 0x10,
        POLLNVAL == 0x20,
{
}

/// What the library itself finds wrong has words of its own, and what the host finds wrong the
/// host's.
pub proof fn failures_to_watch_have_their_words(e: IoError)
    ensures
        ExitError::Host(e).text() is None,
        ExitError::InvalidHandle.text() == Some("invalid runtime exit handle"@),
        ExitError::InvalidQueue.text() == Some("invalid runtime exit kqueue"@),
        ExitError::IncompleteDescriptor.text() == Some(
            "incomplete runtime lifecycle descriptor information"@,
        ),
        ExitError::IncompleteIdentity.text() == Some("incomplete Darwin process identity"@),
        ExitError::OtherProcess.text() == Some(
            "Darwin process identity does not match requested PID"@,
        ),
{
}

} // verus!
