//! Process and database identity from what the operating system reports.

use vstd::prelude::*;

use crate::paths::{lemma_split_more, lemma_split_one, split, split_text};
use crate::text::{chars_of, parse_u64, same, string_of, unsigned_value, views};

verus! {

/// Error number of a process that does not exist.
pub const ESRCH: i32 = 3;

/// Error number of a file that does not exist.
pub const ENOENT: i32 = 2;

/// Error number of a rejected argument.
pub const EINVAL: i32 = 22;

/// Error number of a missing system call.
pub const ENOSYS: i32 = 38;

/// Microseconds in a second.
pub const MICROS_PER_SECOND: i64 = 1_000_000;

/// Why an identity could not be confirmed.
#[derive(Clone, Copy, Debug, PartialEq, Eq, Structural)]
pub enum IdentityError {
    /// The process or file is not the one that was captured.
    RuntimeChanged,
    /// The operating system's report cannot be read.
    InvalidData,
    /// The operating system refused; the error number is its own.
    Transport(i32),
}

/// When a process came to be, as a token that no later process repeats.
#[derive(Clone, Copy, Debug, PartialEq, Eq, Structural)]
pub struct ProcessStart(pub u64, pub u64);

/// One process instance: its PID and its birth token.
#[derive(Clone, Copy, Debug, PartialEq, Eq, Structural)]
pub struct ProcessIdentity {
    pub pid: i32,
    pub start: ProcessStart,
    /// Whether a kernel handle follows this instance.
    pub pinned: bool,
}

/// Result of opening a kernel handle on a process.
#[derive(Clone, Copy, Debug, PartialEq, Eq, Structural)]
pub enum HandleOpen {
    Opened,
    /// The error number of the failure.
    Failed(i32),
}

/// Result of polling the kernel handle of a process.
#[derive(Clone, Copy, Debug, PartialEq, Eq, Structural)]
pub enum HandlePoll {
    /// Nothing to report: the process is alive.
    Quiet,
    /// The handle is ready: the process has exited.
    Ready,
    /// The error number of the failure.
    Failed(i32),
}

/// The part after the last occurrence of a character.
pub open spec fn after_last(s: Seq<char>, c: char) -> Option<Seq<char>>
    decreases s.len(),
{
    if s.len() == 0 {
        None
    } else if s.last() == c {
        Some(Seq::empty())
    } else {
        match after_last(s.drop_last(), c) {
            Some(t) => Some(t.push(s.last())),
            None => None,
        }
    }
}

/// Whether a character is ASCII whitespace.
pub open spec fn is_blank(c: char) -> bool {
    c == ' ' || c == '\t' || c == '\n' || c == '\r' || c == '\u{c}'
}

/// The text with every blank written as a space.
pub open spec fn spaced(s: Seq<char>) -> Seq<char> {
    s.map_values(|c: char| if is_blank(c) { ' ' } else { c })
}

/// The words of a text: what stands between blanks.
pub open spec fn words(s: Seq<char>) -> Seq<Seq<char>> {
    split(spaced(s), ' ').filter(|w: Seq<char>| w.len() > 0)
}

/// Position of the start time among the words that follow the command name.
pub const START_TIME_FIELD: usize = 19;

/// The birth token in a process status line of Linux.
///
/// The command name stands in parentheses and may itself hold parentheses and blanks, so the
/// words after the last closing one count. The first is the process state: a zombie or dead
/// process has no identity any more. The start time comes nineteen words later.
pub open spec fn stat_start(stat: Seq<char>) -> Result<ProcessStart, IdentityError> {
    match after_last(stat, ')') {
        None => Err(IdentityError::InvalidData),
        Some(tail) => {
            let fields = words(tail);
            if fields.len() > 0 && (fields[0] == "Z"@ || fields[0] == "X"@ || fields[0] == "x"@) {
                Err(IdentityError::RuntimeChanged)
            } else if fields.len() <= START_TIME_FIELD {
                Err(IdentityError::InvalidData)
            } else {
                match unsigned_value(fields[START_TIME_FIELD as int]) {
                    Some(n) => if n <= u64::MAX {
                        Ok(ProcessStart(n as u64, 0))
                    } else {
                        Err(IdentityError::InvalidData)
                    },
                    None => Err(IdentityError::InvalidData),
                }
            }
        },
    }
}

fn text_after_last(s: &str, c: char) -> (r: Option<String>)
    ensures
        match r {
            Some(t) => after_last(s@, c) == Some(t@),
            None => after_last(s@, c) is None,
        },
{
    let chars = chars_of(s);
    let mut found = false;
    let mut tail: Vec<char> = Vec::new();
    let mut i: usize = 0;
    while i < chars.len()
        invariant
            i <= chars@.len(),
            chars@ == s@,
            found ==> after_last(s@.take(i as int), c) == Some(tail@),
            !found ==> after_last(s@.take(i as int), c) is None,
        decreases chars@.len() - i,
    {
        assert(s@.take(i + 1).drop_last() =~= s@.take(i as int));
        if chars[i] == c {
            found = true;
            tail = Vec::new();
            assert(tail@ =~= Seq::<char>::empty());
        } else if found {
            tail.push(chars[i]);
        }
        i = i + 1;
    }
    assert(s@.take(i as int) =~= s@);
    if found {
        Some(string_of(tail.as_slice()))
    } else {
        None
    }
}

/// The words of a text.
pub fn words_of(s: &str) -> (r: Vec<String>)
    ensures
        views(r@) == words(s@),
{
    let chars = chars_of(s);
    let mut even: Vec<char> = Vec::new();
    let mut i: usize = 0;
    while i < chars.len()
        invariant
            i <= chars@.len(),
            chars@ == s@,
            even@ == spaced(s@).take(i as int),
        decreases chars@.len() - i,
    {
        let c = chars[i];
        if c == ' ' || c == '\t' || c == '\n' || c == '\r' || c == '\u{c}' {
            even.push(' ');
        } else {
            even.push(c);
        }
        i = i + 1;
        assert(even@ =~= spaced(s@).take(i as int));
    }
    assert(even@ =~= spaced(s@));
    let text = string_of(even.as_slice());
    let pieces = split_text(text.as_str(), ' ');
    let ghost named = |w: Seq<char>| w.len() > 0;
    let ghost all = views(pieces@);
    let mut out: Vec<String> = Vec::new();
    let mut k: usize = 0;
    assert(views(out@) =~= all.take(0).filter(named)) by {
        reveal(Seq::filter);
    }
    while k < pieces.len()
        invariant
            k <= pieces@.len(),
            named == (|w: Seq<char>| w.len() > 0),
            all == views(pieces@),
            views(out@) == all.take(k as int).filter(named),
        decreases pieces@.len() - k,
    {
        let ghost before = out@;
        proof {
            reveal(Seq::filter);
            assert(all.take(k + 1).drop_last() =~= all.take(k as int));
            assert(all.take(k + 1).last() == pieces@[k as int]@);
        }
        if !pieces[k].as_str().is_empty() {
            out.push(pieces[k].clone());
            assert(named(pieces@[k as int]@));
            assert(views(out@) =~= views(before).push(pieces@[k as int]@));
        } else {
            assert(!named(pieces@[k as int]@));
        }
        k = k + 1;
    }
    assert(all.take(k as int) =~= all);
    out
}

/// Reads the birth token from a process status line of Linux.
pub fn linux_start(stat: &str) -> (r: Result<ProcessStart, IdentityError>)
    ensures
        r == stat_start(stat@),
{
    let tail = match text_after_last(stat, ')') {
        Some(t) => t,
        None => {
            return Err(IdentityError::InvalidData);
        },
    };
    let fields = words_of(tail.as_str());
    assert(forall|i: int| 0 <= i < fields@.len() ==> words(tail@)[i] == (#[trigger] fields@[i])@);
    if fields.len() > 0 && (same(fields[0].as_str(), "Z") || same(fields[0].as_str(), "X") || same(
        fields[0].as_str(),
        "x",
    )) {
        return Err(IdentityError::RuntimeChanged);
    }
    if fields.len() <= START_TIME_FIELD {
        return Err(IdentityError::InvalidData);
    }
    match parse_u64(fields[START_TIME_FIELD].as_str()) {
        Some(ticks) => Ok(ProcessStart(ticks, 0)),
        None => Err(IdentityError::InvalidData),
    }
}

/// What a failed process lookup means: a process that is gone is another identity, everything
/// else stays the operating system's failure.
pub open spec fn lookup_failure(errno: i32) -> IdentityError {
    if errno == ESRCH || errno == ENOENT {
        IdentityError::RuntimeChanged
    } else {
        IdentityError::Transport(errno)
    }
}

/// What a failed process lookup means.
pub fn process_lookup_error(errno: i32) -> (r: IdentityError)
    ensures
        r == lookup_failure(errno),
{
    if errno == ESRCH || errno == ENOENT {
        IdentityError::RuntimeChanged
    } else {
        IdentityError::Transport(errno)
    }
}

/// The birth token in a process record of Darwin.
pub open spec fn record_start(
    pid: i32,
    record_pid: u32,
    zombie: bool,
    seconds: u64,
    micros: u64,
) -> Result<ProcessStart, IdentityError> {
    if record_pid != pid as u32 || zombie {
        Err(IdentityError::RuntimeChanged)
    } else {
        Ok(ProcessStart(seconds, micros))
    }
}

/// Reads the birth token from a process record of Darwin.
pub fn macos_start(
    pid: i32,
    record_pid: u32,
    zombie: bool,
    seconds: u64,
    micros: u64,
) -> (r: Result<ProcessStart, IdentityError>)
    ensures
        r == record_start(pid, record_pid, zombie, seconds, micros),
{
    if record_pid != pid as u32 || zombie {
        Err(IdentityError::RuntimeChanged)
    } else {
        Ok(ProcessStart(seconds, micros))
    }
}

/// Reads the birth token from a creation time of Windows, given as two halves.
pub fn windows_start(still_running: bool, high: u32, low: u32) -> (r: Result<
    ProcessStart,
    IdentityError,
>)
    ensures
        r == if still_running {
            Ok::<ProcessStart, IdentityError>(ProcessStart((high * 0x1_0000_0000 + low) as u64, 0))
        } else {
            Err(IdentityError::RuntimeChanged)
        },
{
    if !still_running {
        return Err(IdentityError::RuntimeChanged);
    }
    Ok(ProcessStart(high as u64 * 0x1_0000_0000 + low as u64, 0))
}

/// What a look at a process says about an identity captured earlier.
pub open spec fn confirmation(
    identity: ProcessIdentity,
    poll: HandlePoll,
    current: Result<ProcessStart, IdentityError>,
) -> Result<(), IdentityError> {
    if identity.pinned && poll is Failed {
        Err(IdentityError::Transport(poll->Failed_0))
    } else if identity.pinned && poll == HandlePoll::Ready {
        Err(IdentityError::RuntimeChanged)
    } else {
        match current {
            Err(e) => Err(e),
            Ok(start) => if start == identity.start {
                Ok(())
            } else {
                Err(IdentityError::RuntimeChanged)
            },
        }
    }
}

impl ProcessIdentity {
    /// Captures the identity of `pid`: its birth token, a kernel handle where the kernel has
    /// one, and a look that confirms both still belong together.
    ///
    /// Kernels without process handles still have birth tokens.
    pub fn capture(
        pid: i32,
        start: Result<ProcessStart, IdentityError>,
        open: HandleOpen,
        poll: HandlePoll,
        current: Result<ProcessStart, IdentityError>,
    ) -> (r: Result<ProcessIdentity, IdentityError>)
        ensures
            r == captured(pid, start, open, poll, current),
    {
        if pid <= 0 {
            return Err(IdentityError::RuntimeChanged);
        }
        let start = match start {
            Ok(s) => s,
            Err(e) => {
                return Err(e);
            },
        };
        let pinned = match open {
            HandleOpen::Opened => true,
            HandleOpen::Failed(errno) => {
                if errno != ENOSYS && errno != EINVAL {
                    return Err(process_lookup_error(errno));
                }
                false
            },
        };
        let identity = ProcessIdentity { pid, start, pinned };
        match identity.verify(poll, current) {
            Ok(()) => Ok(identity),
            Err(e) => Err(e),
        }
    }

    /// Whether the process is still the one captured.
    pub fn verify(&self, poll: HandlePoll, current: Result<ProcessStart, IdentityError>) -> (r:
        Result<(), IdentityError>)
        ensures
            r == confirmation(*self, poll, current),
    {
        if self.pinned {
            match poll {
                HandlePoll::Failed(errno) => {
                    return Err(IdentityError::Transport(errno));
                },
                HandlePoll::Ready => {
                    return Err(IdentityError::RuntimeChanged);
                },
                HandlePoll::Quiet => {},
            }
        }
        match current {
            Err(e) => Err(e),
            Ok(start) => {
                if start.0 == self.start.0 && start.1 == self.start.1 {
                    Ok(())
                } else {
                    Err(IdentityError::RuntimeChanged)
                }
            },
        }
    }

    /// Whether a peer that calls itself `pid` is the process captured.
    pub fn verify_peer(
        &self,
        pid: i32,
        poll: HandlePoll,
        current: Result<ProcessStart, IdentityError>,
    ) -> (r: Result<(), IdentityError>)
        ensures
            r == if pid != self.pid {
                Err(IdentityError::RuntimeChanged)
            } else {
                confirmation(*self, poll, current)
            },
    {
        if pid != self.pid {
            return Err(IdentityError::RuntimeChanged);
        }
        self.verify(poll, current)
    }

    /// Whether this process instance has exited. A PID that passed to another process is an
    /// exit, never a survivor.
    pub fn has_exited(&self, poll: HandlePoll, current: Result<ProcessStart, IdentityError>) -> (r:
        Result<bool, IdentityError>)
        ensures
            r == match confirmation(*self, poll, current) {
                Ok(()) => Ok::<bool, IdentityError>(false),
                Err(IdentityError::RuntimeChanged) => Ok(true),
                Err(e) => Err(e),
            },
    {
        match self.verify(poll, current) {
            Ok(()) => Ok(false),
            Err(IdentityError::RuntimeChanged) => Ok(true),
            Err(e) => Err(e),
        }
    }

    /// Creation time in microseconds of the Unix clock, from a start time in clock ticks since
    /// boot. `None` where the tick rate is unknown.
    pub fn created_unix_micros(
        &self,
        ticks_per_second: i64,
        realtime: i64,
        boottime: i64,
    ) -> (r: Option<i64>)
        requires
            ticks_per_second > 0 ==> i64::MIN <= realtime - boottime <= i64::MAX,
            ticks_per_second > 0 ==> i64::MIN <= realtime - boottime + since_boot(
                self.start,
                ticks_per_second,
            ) <= i64::MAX,
        ensures
            r == if ticks_per_second <= 0 {
                None
            } else {
                Some((realtime - boottime + since_boot(self.start, ticks_per_second)) as i64)
            },
    {
        if ticks_per_second <= 0 {
            return None;
        }
        assert(self.start.0 as int * 1_000_000 <= 0xffff_ffff_ffff_ffff * 1_000_000);
        let scaled: i128 = self.start.0 as i128 * 1_000_000 / ticks_per_second as i128;
        let since: i64 = scaled as i64;
        Some(realtime - boottime + since)
    }

    /// Creation time in microseconds of the Unix clock, from an absolute birth time.
    pub fn created_unix_micros_absolute(&self) -> (r: i64)
        ensures
            r == saturated(saturated(self.start.0 as i64 * MICROS_PER_SECOND) + self.start.1 as i64),
    {
        let seconds = self.start.0 as i64;
        let micros = self.start.1 as i64;
        let scaled: i128 = seconds as i128 * 1_000_000;
        let bounded: i64 = clamp(scaled);
        clamp(bounded as i128 + micros as i128)
    }

    /// How a signal reaches this process instance and no later occupant of its PID.
    pub fn signal(&self, checked: Result<(), IdentityError>) -> (r: Result<
        SignalRoute,
        IdentityError,
    >)
        ensures
            r == if self.pinned {
                Ok::<SignalRoute, IdentityError>(SignalRoute::Handle)
            } else {
                match checked {
                    Ok(()) => Ok(SignalRoute::Pid(self.pid)),
                    Err(IdentityError::RuntimeChanged) => Ok(SignalRoute::Nothing),
                    Err(e) => Err(e),
                }
            },
    {
        if self.pinned {
            return Ok(SignalRoute::Handle);
        }
        match checked {
            Ok(()) => Ok(SignalRoute::Pid(self.pid)),
            Err(IdentityError::RuntimeChanged) => Ok(SignalRoute::Nothing),
            Err(e) => Err(e),
        }
    }
}

/// The identity that the capture of `pid` gives.
pub open spec fn captured(
    pid: i32,
    start: Result<ProcessStart, IdentityError>,
    open: HandleOpen,
    poll: HandlePoll,
    current: Result<ProcessStart, IdentityError>,
) -> Result<ProcessIdentity, IdentityError> {
    if pid <= 0 {
        Err(IdentityError::RuntimeChanged)
    } else if start is Err {
        Err(start->Err_0)
    } else if open is Failed && open->Failed_0 != ENOSYS && open->Failed_0 != EINVAL {
        Err(lookup_failure(open->Failed_0))
    } else {
        let identity = ProcessIdentity { pid, start: start->Ok_0, pinned: open == HandleOpen::Opened };
        match confirmation(identity, poll, current) {
            Ok(_) => Ok(identity),
            Err(e) => Err(e),
        }
    }
}

/// Microseconds from boot to the start of a process.
pub open spec fn since_boot(start: ProcessStart, ticks_per_second: i64) -> i64 {
    ((start.0 * 1_000_000) / (ticks_per_second as int)) as i64
}

/// The nearest 64-bit integer.
pub open spec fn saturated(n: int) -> i64 {
    if n > i64::MAX {
        i64::MAX
    } else if n < i64::MIN {
        i64::MIN
    } else {
        n as i64
    }
}

fn clamp(n: i128) -> (r: i64)
    ensures
        r == saturated(n as int),
{
    if n > i64::MAX as i128 {
        i64::MAX
    } else if n < i64::MIN as i128 {
        i64::MIN
    } else {
        n as i64
    }
}

/// How a signal is delivered.
#[derive(Clone, Copy, Debug, PartialEq, Eq, Structural)]
pub enum SignalRoute {
    /// Through the kernel handle of the instance.
    Handle,
    /// By PID, right after its identity was confirmed.
    Pid(i32),
    /// Not at all: the process is gone.
    Nothing,
}

/// Whether a delivery that reported `errno` failed. A process that finished in between leaves
/// nothing to signal.
pub fn signal_result(delivered: bool, errno: i32) -> (r: Result<(), i32>)
    ensures
        r == if delivered || errno == ESRCH {
            Ok::<(), i32>(())
        } else {
            Err(errno)
        },
{
    if delivered || errno == ESRCH {
        Ok(())
    } else {
        Err(errno)
    }
}

/// Microseconds of a clock reading.
pub fn clock_unix_micros(seconds: i64, nanos: i64) -> (r: i64)
    ensures
        r == (seconds * MICROS_PER_SECOND + truncated_thousandth(nanos as int)) as i64,
{
    let scaled: i128 = seconds as i128 * 1_000_000;
    let n: i128 = nanos as i128;
    let part: i128 = if n >= 0 { n / 1000 } else { -((-n) / 1000) };
    let total: i128 = scaled + part;
    total as i64
}

/// A thousandth, rounded toward zero.
pub open spec fn truncated_thousandth(n: int) -> int {
    if n >= 0 {
        n / 1000
    } else {
        -((-n) / 1000)
    }
}

/// What identifies an open file, whatever its name.
#[derive(Clone, Copy, Debug, PartialEq, Eq, Structural)]
pub struct FileId(pub u64, pub u64, pub u64);

/// The database that a backend opened first.
pub struct DatabaseIdentity {
    pub path: String,
    pub id: FileId,
}

impl DatabaseIdentity {
    /// Captures the identity of the database file at `path`.
    pub fn capture(path: &str, opened: Result<FileId, i32>) -> (r: Result<
        DatabaseIdentity,
        IdentityError,
    >)
        ensures
            match opened {
                Ok(id) => r matches Ok(d) && d.path@ == path@ && d.id == id,
                Err(errno) => r == Err::<DatabaseIdentity, IdentityError>(
                    IdentityError::Transport(errno),
                ),
            },
    {
        match opened {
            Ok(id) => Ok(DatabaseIdentity { path: path.to_owned(), id }),
            Err(errno) => Err(IdentityError::Transport(errno)),
        }
    }

    /// Whether the file at the path is still the database captured. `None` stands for a file
    /// that cannot be opened, `Some(Err(_))` for one that opens but cannot be identified.
    pub fn verify(&self, current: Option<Result<FileId, i32>>) -> (r: Result<(), IdentityError>)
        ensures
            r == match current {
                None => Err::<(), IdentityError>(IdentityError::RuntimeChanged),
                Some(Err(errno)) => Err(IdentityError::Transport(errno)),
                Some(Ok(id)) => if id == self.id {
                    Ok(())
                } else {
                    Err(IdentityError::RuntimeChanged)
                },
            },
    {
        match current {
            None => Err(IdentityError::RuntimeChanged),
            Some(Err(errno)) => Err(IdentityError::Transport(errno)),
            Some(Ok(id)) => {
                if id.0 == self.id.0 && id.1 == self.id.1 && id.2 == self.id.2 {
                    Ok(())
                } else {
                    Err(IdentityError::RuntimeChanged)
                }
            },
        }
    }
}

/// A process that took over a PID is never confirmed: its birth token differs.
pub proof fn a_recycled_pid_is_never_confirmed(
    identity: ProcessIdentity,
    poll: HandlePoll,
    other: ProcessStart,
)
    requires
        other != identity.start,
    ensures
        confirmation(identity, poll, Ok(other)) is Err,
        !(poll is Failed) ==> confirmation(identity, poll, Ok(other)) == Err::<
            (),
            IdentityError,
        >(IdentityError::RuntimeChanged),
{
}

/// A process is confirmed exactly where its birth token is the captured one and a handle that
/// follows it, where there is one, has nothing to report. A handle that is ready tells that the
/// process has exited, a handle that fails that nobody knows; without a handle only the token
/// counts.
pub proof fn the_captured_process_is_confirmed(
    identity: ProcessIdentity,
    poll: HandlePoll,
    current: Result<ProcessStart, IdentityError>,
)
    ensures
        confirmation(identity, poll, current) is Ok <==> (!identity.pinned || poll
            == HandlePoll::Quiet) && current is Ok && current->Ok_0 == identity.start,
        identity.pinned && poll == HandlePoll::Ready ==> confirmation(identity, poll, current)
            == Err::<(), IdentityError>(IdentityError::RuntimeChanged),
        identity.pinned && poll is Failed ==> confirmation(identity, poll, current) == Err::<
            (),
            IdentityError,
        >(IdentityError::Transport(poll->Failed_0)),
        (!identity.pinned || poll == HandlePoll::Quiet) && current is Err ==> confirmation(
            identity,
            poll,
            current,
        ) == Err::<(), IdentityError>(current->Err_0),
{
}

/// A live process is captured as what it is: under its PID, with its birth token, and with the
/// handle that could be opened. A host without such handles captures it all the same. What is not
/// there, or changes while it is looked at, is not captured.
pub proof fn live_processes_are_captured(
    pid: i32,
    start: ProcessStart,
    poll: HandlePoll,
    errno: i32,
)
    ensures
        pid > 0 && poll == HandlePoll::Quiet ==> captured(
            pid,
            Ok(start),
            HandleOpen::Opened,
            poll,
            Ok(start),
        ) == Ok::<ProcessIdentity, IdentityError>(ProcessIdentity { pid, start, pinned: true }),
        pid > 0 && (errno == 38 || errno == 22) ==> captured(
            pid,
            Ok(start),
            HandleOpen::Failed(errno),
            poll,
            Ok(start),
        ) == Ok::<ProcessIdentity, IdentityError>(ProcessIdentity { pid, start, pinned: false }),
        pid > 0 && errno != 38 && errno != 22 ==> captured(
            pid,
            Ok(start),
            HandleOpen::Failed(errno),
            poll,
            Ok(start),
        ) == Err::<ProcessIdentity, IdentityError>(
            if errno == 3 || errno == 2 {
                IdentityError::RuntimeChanged
            } else {
                IdentityError::Transport(errno)
            },
        ),
        pid <= 0 ==> captured(pid, Ok(start), HandleOpen::Opened, poll, Ok(start)) is Err,
        forall|e: IdentityError, open: HandleOpen, current: Result<ProcessStart, IdentityError>|
            pid > 0 ==> #[trigger] captured(pid, Err(e), open, poll, current) == Err::<
                ProcessIdentity,
                IdentityError,
            >(e),
        forall|other: ProcessStart|
            other != start ==> (#[trigger] captured(
                pid,
                Ok(start),
                HandleOpen::Opened,
                poll,
                Ok(other),
            )) is Err,
{
}

/// A lookup that fails because there is no such process or file means that the process is gone;
/// every other failure stays what it is.
pub proof fn only_missing_processes_are_gone(errno: i32)
    ensures
        errno == 3 || errno == 2 ==> lookup_failure(errno) == IdentityError::RuntimeChanged,
        errno != 3 && errno != 2 ==> lookup_failure(errno) == IdentityError::Transport(errno),
{
}

/// A record of Darwin names the process exactly where it is about that PID and not of a zombie.
pub proof fn records_name_their_process(
    pid: i32,
    record_pid: u32,
    zombie: bool,
    seconds: u64,
    micros: u64,
)
    ensures
        record_start(pid, record_pid, zombie, seconds, micros) == if record_pid == pid as u32
            && !zombie {
            Ok::<ProcessStart, IdentityError>(ProcessStart(seconds, micros))
        } else {
            Err::<ProcessStart, IdentityError>(IdentityError::RuntimeChanged)
        },
{
}

proof fn lemma_after_last(s: Seq<char>, c: char, tail: Seq<char>)
    requires
        !tail.contains(c),
    ensures
        after_last(s.push(c) + tail, c) == Some(tail),
    decreases tail.len(),
{
    let all = s.push(c) + tail;
    if tail.len() == 0 {
        assert(all =~= s.push(c));
        assert(tail =~= Seq::empty());
    } else {
        let front = tail.drop_last();
        assert(all.drop_last() =~= s.push(c) + front);
        assert(all.last() == tail.last());
        assert(tail[tail.len() - 1] == tail.last());
        assert forall|i: int| 0 <= i < front.len() implies front[i] != c by {
            assert(tail[i] != c);
        }
        lemma_after_last(s, c, front);
        assert(front.push(tail.last()) =~= tail);
    }
}

/// A status line of Linux is read from behind its command, whatever the command holds: the first
/// word there tells whether the process is dead, and the twentieth is its start.
pub proof fn status_lines_are_read_behind_the_command(front: Seq<char>, tail: Seq<char>)
    requires
        !tail.contains(')'),
    ensures
        ({
            let line = front.push(')') + tail;
            let fields = words(tail);
            let dead = fields.len() > 0 && (fields[0] == "Z"@ || fields[0] == "X"@ || fields[0]
                == "x"@);
            &&& dead ==> stat_start(line) == Err::<ProcessStart, IdentityError>(
                IdentityError::RuntimeChanged,
            )
            &&& !dead && fields.len() > 19 && unsigned_value(fields[19]) is Some && unsigned_value(
                fields[19],
            )->0 <= u64::MAX ==> stat_start(line) == Ok::<ProcessStart, IdentityError>(
                ProcessStart(unsigned_value(fields[19])->0 as u64, 0),
            )
            &&& !dead && (fields.len() <= 19 || unsigned_value(fields[19]) is None)
                ==> stat_start(line) == Err::<ProcessStart, IdentityError>(
                IdentityError::InvalidData,
            )
        }),
{
    lemma_after_last(front, ')', tail);
}

/// Times are kept: ticks since boot are turned into microseconds at the rate of the clock, values
/// that fit stay as they are, and a thousandth is rounded toward zero.
pub proof fn times_are_converted(start: ProcessStart, ticks: i64, n: int)
    ensures
        ticks > 0 && start.0 * 1_000_000 / (ticks as int) <= i64::MAX ==> since_boot(start, ticks)
            == start.0 * 1_000_000 / (ticks as int),
        i64::MIN <= n <= i64::MAX ==> saturated(n) == n,
        n > i64::MAX ==> saturated(n) == i64::MAX,
        n < i64::MIN ==> saturated(n) == i64::MIN,
        n >= 0 ==> truncated_thousandth(n) * 1000 <= n < truncated_thousandth(n) * 1000 + 1000,
        truncated_thousandth(-n) == -truncated_thousandth(n),
{
    if ticks > 0 {
        assert(start.0 * 1_000_000 / (ticks as int) >= 0) by (nonlinear_arith)
            requires
                ticks > 0,
                start.0 >= 0,
        ;
    }
}

/// A second has a million microseconds, and the host's numbers are its own: no such process, no
/// such file, not valid, not there.
pub proof fn hosts_have_their_numbers()
    ensures
        MICROS_PER_SECOND == 1_000_000,
        ESRCH == 3,
        ENOENT == 2,
        EINVAL == 22,
        ENOSYS == 38,
{
}

/// Words stand between blanks of any kind and any number: what follows a blank is one word more,
/// as it is written, and nothing is no word.
pub proof fn words_stand_between_blanks(front: Seq<char>, blank: char, word: Seq<char>)
    requires
        blank == ' ' || blank == '\t' || blank == '\n' || blank == '\r' || blank == '\u{c}',
        forall|i: int|
            0 <= i < word.len() ==> {
                let c = #[trigger] word[i];
                c != ' ' && c != '\t' && c != '\n' && c != '\r' && c != '\u{c}'
            },
    ensures
        word.len() > 0 ==> words(front + seq![blank] + word) == words(front).push(word),
        word.len() == 0 ==> words(front + seq![blank] + word) == words(front),
        word.len() > 0 ==> words(word) == seq![word],
        words(Seq::empty()) == Seq::<Seq<char>>::empty(),
{
    let keeps = |w: Seq<char>| w.len() > 0;
    let all = front + seq![blank] + word;
    assert(spaced(word) =~= word);
    assert(spaced(all) =~= spaced(front) + seq![' '] + word);
    lemma_split_more(spaced(front), ' ', word);
    let pieces = split(spaced(front), ' ');
    reveal(Seq::filter);
    assert(pieces.push(word).drop_last() =~= pieces);
    lemma_split_one(word, ' ');
    let none = Seq::<Seq<char>>::empty();
    assert(none.filter(keeps) =~= none);
    assert(seq![word].drop_last() =~= none);
    assert(none.push(word) =~= seq![word]);
    assert(spaced(Seq::empty()) =~= Seq::<char>::empty());
    assert(seq![Seq::<char>::empty()].drop_last() =~= none);
}

} // verus!
