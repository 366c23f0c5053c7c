//! What the PID of a recorded run names right now.
//!
//! A run row keeps the PID of its runtime, but the row can outlive the process and the kernel
//! can give the PID to an unrelated one. A wrong claim that the PID was recycled is the worst
//! outcome: the row would be reconciled away, the name reused, and two machines would share one
//! storage. So every rule below needs positive evidence before it calls a live process a
//! stranger.
//!
//! | lifecycle lock                    | created vs. the run's start | executable  | verdict             |
//! |-----------------------------------|-----------------------------|-------------|---------------------|
//! | this sandbox's                    | any                         | any         | the runtime, locked |
//! | another sandbox's                 | any                         | any         | recycled            |
//! | none, unreadable or no such lock  | start unknown               | any         | the runtime         |
//! | none, unreadable or no such lock  | in time                     | any         | the runtime, older  |
//! | none, unreadable or no such lock  | too late                    | msb         | the runtime         |
//! | none, unreadable or no such lock  | too late                    | other, none | recycled            |

use vstd::prelude::*;

use crate::paths::{file_name, parent_name, path_file_name, path_parent_name};
use crate::text::{
    chars_of, finishes_with, has_suffix, is_hex_digit, same, string_of, trim_text, trimmed,
};

verus! {

/// How a live process was tied to its run row.
#[derive(Clone, Copy, Debug, PartialEq, Eq, Structural)]
pub enum Proof {
    /// It holds this sandbox's lifecycle lock.
    LifecycleLock,
    /// It was created no later than the run started, within timer slack.
    StartedBeforeRun,
    /// By neither; it is treated as the runtime.
    Unverified,
}

/// What the inherited lifecycle descriptor of a process points at.
#[derive(Clone, Copy, Debug, PartialEq, Eq, Structural)]
pub enum LockEvidence {
    /// This sandbox's lifecycle lock.
    Matches,
    /// Another sandbox's lifecycle lock.
    OtherSandbox,
    /// Nothing readable, or no lifecycle lock.
    Absent,
}

/// How the creation time of a process relates to the start of the run.
#[derive(Clone, Copy, Debug, PartialEq, Eq, Structural)]
pub enum TimeEvidence {
    /// One of the two is not known.
    Unknown,
    /// Created no later than the start plus slack.
    Plausible,
    /// Created after the start plus slack.
    TooLate,
}

/// Whether a process runs the `msb` binary.
#[derive(Clone, Copy, Debug, PartialEq, Eq, Structural)]
pub enum ExeEvidence {
    Msb,
    Other,
    Unknown,
}

/// Signals that the lifecycle operations deliver to a runtime.
#[derive(Clone, Copy, Debug, PartialEq, Eq, Structural)]
pub enum RuntimeSignal {
    /// Ask for termination.
    Terminate,
    /// Force termination.
    Kill,
    /// Ask for a drain.
    Drain,
}

/// A live process bound to the run row that recorded it.
#[derive(Clone, Copy, Debug, PartialEq, Eq, Structural)]
pub struct RuntimeProcess {
    pub pid: i32,
    pub proof: Proof,
    /// Whether the kernel identity of the process could be read.
    pub identified: bool,
}

/// What the recorded PID of a run row names.
#[derive(Clone, Copy, Debug, PartialEq, Eq, Structural)]
pub enum RecordedRuntime {
    /// No live process.
    Dead,
    /// A live process that is provably not the runtime.
    Recycled,
    /// A live process that is, or cannot be shown not to be, the runtime.
    Live(RuntimeProcess),
}

/// The file name of a descriptor link, without the marker of an unlinked target.
pub open spec fn link_name(link: Seq<char>) -> Option<Seq<char>> {
    match file_name(link) {
        None => None,
        Some(name) => Some(
            if has_suffix(name, " (deleted)"@) {
                name.take(name.len() - " (deleted)"@.len())
            } else {
                name
            },
        ),
    }
}

/// The number of hexadecimal digits in the name of a lifecycle lock.
pub const LOCK_HASH_DIGITS: usize = 32;

/// Whether a file name has the shape of a lifecycle lock: a digest and `.lock`.
pub open spec fn is_lock_name(name: Seq<char>) -> bool {
    has_suffix(name, ".lock"@) && {
        let hash = name.take(name.len() - ".lock"@.len());
        hash.len() == LOCK_HASH_DIGITS && (forall|i: int|
            0 <= i < hash.len() ==> is_hex_digit(#[trigger] hash[i]))
    }
}

/// What a descriptor link says about the lifecycle lock it points at.
///
/// Another mount namespace shows another file, but the same lock name. A different lock name in
/// a directory of locks belongs to another sandbox; everything else is no evidence.
pub open spec fn link_evidence(link: Seq<char>, lifecycle: Seq<char>) -> LockEvidence {
    match link_name(link) {
        None => LockEvidence::Absent,
        Some(name) => if file_name(lifecycle) == Some(name) {
            LockEvidence::Matches
        } else if parent_name(link) == Some("locks"@) && is_lock_name(name) {
            LockEvidence::OtherSandbox
        } else {
            LockEvidence::Absent
        },
    }
}

/// The decision table. `None` is a recycled PID.
pub open spec fn judged(lock: LockEvidence, time: TimeEvidence, exe: ExeEvidence) -> Option<Proof> {
    match lock {
        LockEvidence::Matches => Some(Proof::LifecycleLock),
        LockEvidence::OtherSandbox => None,
        LockEvidence::Absent => match time {
            TimeEvidence::Unknown => Some(Proof::Unverified),
            TimeEvidence::Plausible => Some(Proof::StartedBeforeRun),
            TimeEvidence::TooLate => if exe == ExeEvidence::Msb {
                Some(Proof::Unverified)
            } else {
                None
            },
        },
    }
}

/// The decision table. `None` is a recycled PID.
pub fn verdict(lock: LockEvidence, time: TimeEvidence, exe: ExeEvidence) -> (r: Option<Proof>)
    ensures
        r == judged(lock, time, exe),
{
    match (lock, time, exe) {
        (LockEvidence::Matches, _, _) => Some(Proof::LifecycleLock),
        (LockEvidence::OtherSandbox, _, _) => None,
        (LockEvidence::Absent, TimeEvidence::Unknown, _) => Some(Proof::Unverified),
        (LockEvidence::Absent, TimeEvidence::Plausible, _) => Some(Proof::StartedBeforeRun),
        (LockEvidence::Absent, TimeEvidence::TooLate, ExeEvidence::Msb) => Some(Proof::Unverified),
        (LockEvidence::Absent, TimeEvidence::TooLate, _) => None,
    }
}

/// A live process is called a stranger only on positive evidence: another sandbox's lock, or a
/// creation after the run started by something that is not `msb`.
pub proof fn strangers_need_evidence(lock: LockEvidence, time: TimeEvidence, exe: ExeEvidence)
    ensures
        judged(lock, time, exe) is None <==> lock == LockEvidence::OtherSandbox || (lock
            == LockEvidence::Absent && time == TimeEvidence::TooLate && exe != ExeEvidence::Msb),
{
}

/// A late creation time alone never condemns an `msb` process.
pub proof fn time_never_condemns_msb(lock: LockEvidence, time: TimeEvidence)
    requires
        lock != LockEvidence::OtherSandbox,
    ensures
        judged(lock, time, ExeEvidence::Msb) is Some,
{
}

/// The file name of a descriptor link, without the marker of an unlinked target.
pub fn lock_file_name(link: &str) -> (r: Option<String>)
    ensures
        match r {
            Some(name) => link_name(link@) == Some(name@),
            None => link_name(link@) is None,
        },
{
    match path_file_name(link) {
        None => None,
        Some(name) => {
            let chars = chars_of(name.as_str());
            let marker = chars_of(" (deleted)");
            if finishes_with(chars.as_slice(), marker.as_slice()) {
                let kept: usize = chars.len() - marker.len();
                let mut front: Vec<char> = Vec::new();
                let mut i: usize = 0;
                while i < kept
                    invariant
                        i <= kept <= chars@.len(),
                        front@ == chars@.take(i as int),
                    decreases kept - i,
                {
                    front.push(chars[i]);
                    i = i + 1;
                    assert(front@ =~= chars@.take(i as int));
                }
                Some(string_of(front.as_slice()))
            } else {
                Some(name)
            }
        },
    }
}

/// Whether a file name has the shape of a lifecycle lock.
pub fn is_lifecycle_lock_name(name: &str) -> (r: bool)
    ensures
        r == is_lock_name(name@),
{
    let chars = chars_of(name);
    let ending = chars_of(".lock");
    if !finishes_with(chars.as_slice(), ending.as_slice()) {
        return false;
    }
    let digits: usize = chars.len() - ending.len();
    let ghost hash = name@.take(digits as int);
    if digits != LOCK_HASH_DIGITS {
        return false;
    }
    let mut i: usize = 0;
    while i < digits
        invariant
            i <= digits <= chars@.len(),
            chars@ == name@,
            hash == name@.take(digits as int),
            digits == name@.len() - ".lock"@.len(),
            forall|k: int| 0 <= k < i ==> is_hex_digit(#[trigger] hash[k]),
        decreases digits - i,
    {
        let c = chars[i];
        assert(hash[i as int] == c);
        if !(('0' <= c && c <= '9') || ('a' <= c && c <= 'f') || ('A' <= c && c <= 'F')) {
            assert(!is_hex_digit(hash[i as int]));
            return false;
        }
        i = i + 1;
    }
    true
}

/// Classifies the path that a lifecycle descriptor points at.
pub fn classify_lock_link(link: &str, lifecycle: &str) -> (r: LockEvidence)
    ensures
        r == link_evidence(link@, lifecycle@),
{
    let name = match lock_file_name(link) {
        Some(name) => name,
        None => {
            return LockEvidence::Absent;
        },
    };
    if let Some(expected) = path_file_name(lifecycle) {
        if same(expected.as_str(), name.as_str()) {
            return LockEvidence::Matches;
        }
    }
    let in_locks_dir = match path_parent_name(link) {
        Some(dir) => same(dir.as_str(), "locks"),
        None => false,
    };
    if in_locks_dir && is_lifecycle_lock_name(name.as_str()) {
        LockEvidence::OtherSandbox
    } else {
        LockEvidence::Absent
    }
}

/// What the lifecycle descriptor of a process says: the same file settles it, else the link
/// does. `None` stands for what cannot be read; a descriptor that is not open has no link.
pub open spec fn descriptor_evidence(
    same_file: Option<bool>,
    link: Option<Seq<char>>,
    lifecycle: Seq<char>,
) -> LockEvidence {
    if same_file == Some(true) {
        LockEvidence::Matches
    } else {
        match link {
            Some(path) => link_evidence(path, lifecycle),
            None => LockEvidence::Absent,
        }
    }
}

/// Compares the inherited lifecycle descriptor of a process with this sandbox's lock.
pub fn lock_evidence(same_file: Option<bool>, link: Option<&str>, lifecycle: &str) -> (r:
    LockEvidence)
    ensures
        r == descriptor_evidence(
            same_file,
            match link {
                Some(path) => Some(path@),
                None => None,
            },
            lifecycle@,
        ),
{
    if let Some(true) = same_file {
        return LockEvidence::Matches;
    }
    match link {
        Some(path) => classify_lock_link(path, lifecycle),
        None => LockEvidence::Absent,
    }
}

/// Whether an executable or command name is `msb`, whatever its directory.
pub open spec fn names_msb(name: Seq<char>) -> bool {
    file_name(name) == Some("msb"@)
}

/// Whether an executable or command name is `msb`, whatever its directory.
pub fn image_basename_is_msb(name: &str) -> (r: bool)
    ensures
        r == names_msb(name@),
{
    match path_file_name(name) {
        Some(base) => same(base.as_str(), "msb"),
        None => false,
    }
}

/// What the executable and command names of a process say. Either name suffices.
pub open spec fn names_evidence(
    exe: Option<Seq<char>>,
    command: Option<Seq<char>>,
) -> ExeEvidence {
    if (exe is Some && names_msb(exe->0)) || (command is Some && names_msb(command->0)) {
        ExeEvidence::Msb
    } else if exe is Some || command is Some {
        ExeEvidence::Other
    } else {
        ExeEvidence::Unknown
    }
}

/// What the executable and command names of a process say.
pub fn exe_evidence_from_names(names: [Option<String>; 2]) -> (r: ExeEvidence)
    ensures
        r == names_evidence(
            crate::mounts::text_of(names@[0]),
            crate::mounts::text_of(names@[1]),
        ),
{
    let mut seen = false;
    if let Some(exe) = &names[0] {
        seen = true;
        if image_basename_is_msb(exe.as_str()) {
            return ExeEvidence::Msb;
        }
    }
    if let Some(command) = &names[1] {
        seen = true;
        if image_basename_is_msb(command.as_str()) {
            return ExeEvidence::Msb;
        }
    }
    if seen {
        ExeEvidence::Other
    } else {
        ExeEvidence::Unknown
    }
}

/// What the executable link and the command name of a process say. The link loses its marker of
/// an unlinked target, the command name its surrounding whitespace.
pub fn exe_evidence(exe_link: Option<&str>, command: Option<&str>) -> (r: ExeEvidence)
    ensures
        r == names_evidence(
            match exe_link {
                Some(link) => link_name(link@),
                None => None,
            },
            match command {
                Some(c) => Some(trimmed(c@)),
                None => None,
            },
        ),
{
    let exe = match exe_link {
        Some(link) => lock_file_name(link),
        None => None,
    };
    let name = match command {
        Some(c) => Some(trim_text(c)),
        None => None,
    };
    exe_evidence_from_names([exe, name])
}

/// Whether a process created at `created` can be the runtime of a run that started at
/// `started_at`, both in microseconds.
pub open spec fn in_time(created: i64, started_at: i64, slack: i64) -> bool {
    created <= started_at + slack
}

/// Whether a process created at `created` can be the runtime of a run that started at
/// `started_at`.
pub fn creation_may_belong_to_run(created: i64, started_at: i64, slack: i64) -> (r: bool)
    ensures
        r == in_time(created, started_at, slack),
{
    created as i128 <= started_at as i128 + slack as i128
}

/// How a creation time relates to the start of a run.
pub open spec fn creation_evidence(
    started_at: Option<i64>,
    created: Option<i64>,
    slack: i64,
) -> TimeEvidence {
    match (started_at, created) {
        (Some(s), Some(c)) => if in_time(c, s, slack) {
            TimeEvidence::Plausible
        } else {
            TimeEvidence::TooLate
        },
        _ => TimeEvidence::Unknown,
    }
}

/// The run row and the limits under which its PID is judged.
#[derive(Clone, Copy, Debug, PartialEq, Eq, Structural)]
pub struct RunFacts {
    pub pid: Option<i32>,
    /// Start of the run in microseconds, where the row has it.
    pub started_at: Option<i64>,
    /// Whether the lifecycle lock of the sandbox is known.
    pub has_lifecycle: bool,
    /// Microseconds by which a creation may follow the start.
    pub slack: i64,
}

/// What has to be found out next about a recorded PID.
#[derive(Clone, Copy, Debug, PartialEq, Eq, Structural)]
pub enum Inspection {
    /// Capture the identity of the process.
    Capture { pid: i32 },
    /// See whether any process has the PID.
    ProbeAlive { pid: i32 },
    /// Read the lifecycle descriptor.
    ReadLock { pid: i32 },
    /// Read the creation time.
    ReadCreation { pid: i32, lock: LockEvidence },
    /// Read the executable and command names.
    ReadExecutable { pid: i32, lock: LockEvidence, time: TimeEvidence },
    /// See whether the captured instance has exited meanwhile.
    Recheck { pid: i32, lock: LockEvidence, time: TimeEvidence, exe: ExeEvidence },
    /// Nothing: the PID is judged.
    Finished(RecordedRuntime),
}

/// What was found out about a recorded PID.
#[derive(Clone, Copy, Debug, PartialEq, Eq, Structural)]
pub enum Finding {
    /// Whether the identity could be captured.
    Captured(bool),
    /// Whether any live process has the PID.
    Alive(bool),
    Lock(LockEvidence),
    /// The creation time in microseconds, where it could be read.
    Created(Option<i64>),
    Executable(ExeEvidence),
    /// Whether the captured instance has exited, where that can be seen.
    Exited(Option<bool>),
}

/// The step after the lock is known.
pub open spec fn after_lock(facts: RunFacts, pid: i32, lock: LockEvidence) -> Inspection {
    if facts.started_at is Some {
        Inspection::ReadCreation { pid, lock }
    } else {
        Inspection::Recheck { pid, lock, time: TimeEvidence::Unknown, exe: ExeEvidence::Unknown }
    }
}

/// The step after the creation time is known. The executable matters only where the time alone
/// would condemn the process.
pub open spec fn after_time(pid: i32, lock: LockEvidence, time: TimeEvidence) -> Inspection {
    if time == TimeEvidence::TooLate && lock == LockEvidence::Absent {
        Inspection::ReadExecutable { pid, lock, time }
    } else {
        Inspection::Recheck { pid, lock, time, exe: ExeEvidence::Unknown }
    }
}

/// The first step for a run row.
pub open spec fn inspection_start(facts: RunFacts) -> Inspection {
    match facts.pid {
        Some(pid) => if pid > 0 {
            Inspection::Capture { pid }
        } else {
            Inspection::Finished(RecordedRuntime::Dead)
        },
        None => Inspection::Finished(RecordedRuntime::Dead),
    }
}

/// The step after a finding. A finding that the step did not ask for changes nothing.
pub open spec fn inspection_next(
    step: Inspection,
    finding: Finding,
    facts: RunFacts,
) -> Inspection {
    match (step, finding) {
        (Inspection::Capture { pid }, Finding::Captured(true)) => if facts.has_lifecycle {
            Inspection::ReadLock { pid }
        } else {
            after_lock(facts, pid, LockEvidence::Absent)
        },
        // Gone is dead. A live process that cannot be read is unprovable, not dead.
        (Inspection::Capture { pid }, Finding::Captured(false)) => Inspection::ProbeAlive { pid },
        (Inspection::ProbeAlive { pid }, Finding::Alive(alive)) => Inspection::Finished(
            if alive {
                RecordedRuntime::Live(
                    RuntimeProcess { pid, proof: Proof::Unverified, identified: false },
                )
            } else {
                RecordedRuntime::Dead
            },
        ),
        (Inspection::ReadLock { pid }, Finding::Lock(lock)) => after_lock(facts, pid, lock),
        (Inspection::ReadCreation { pid, lock }, Finding::Created(created)) => after_time(
            pid,
            lock,
            creation_evidence(facts.started_at, created, facts.slack),
        ),
        (Inspection::ReadExecutable { pid, lock, time }, Finding::Executable(exe)) => {
            Inspection::Recheck { pid, lock, time, exe }
        },
        // What was read belongs to the captured instance only while that is alive.
        (Inspection::Recheck { pid, lock, time, exe }, Finding::Exited(exited)) => {
            Inspection::Finished(
                if exited == Some(true) {
                    RecordedRuntime::Dead
                } else {
                    match judged(lock, time, exe) {
                        Some(proof) => RecordedRuntime::Live(
                            RuntimeProcess { pid, proof, identified: true },
                        ),
                        None => RecordedRuntime::Recycled,
                    }
                },
            )
        },
        _ => step,
    }
}

impl Inspection {
    /// Begins to judge what the recorded PID of a run row names.
    pub fn inspect(facts: RunFacts) -> (r: Inspection)
        ensures
            r == inspection_start(facts),
    {
        match facts.pid {
            Some(pid) => {
                if pid > 0 {
                    Inspection::Capture { pid }
                } else {
                    Inspection::Finished(RecordedRuntime::Dead)
                }
            },
            None => Inspection::Finished(RecordedRuntime::Dead),
        }
    }

    /// Takes a finding into account.
    pub fn advance(self, finding: Finding, facts: RunFacts) -> (r: Inspection)
        ensures
            r == inspection_next(self, finding, facts),
    {
        match (self, finding) {
            (Inspection::Capture { pid }, Finding::Captured(true)) => {
                if facts.has_lifecycle {
                    Inspection::ReadLock { pid }
                } else {
                    Self::lock_known(facts, pid, LockEvidence::Absent)
                }
            },
            (Inspection::Capture { pid }, Finding::Captured(false)) => {
                Inspection::ProbeAlive { pid }
            },
            (Inspection::ProbeAlive { pid }, Finding::Alive(alive)) => {
                if alive {
                    Inspection::Finished(
                        RecordedRuntime::Live(
                            RuntimeProcess { pid, proof: Proof::Unverified, identified: false },
                        ),
                    )
                } else {
                    Inspection::Finished(RecordedRuntime::Dead)
                }
            },
            (Inspection::ReadLock { pid }, Finding::Lock(lock)) => {
                Self::lock_known(facts, pid, lock)
            },
            (Inspection::ReadCreation { pid, lock }, Finding::Created(created)) => {
                let time = match (facts.started_at, created) {
                    (Some(s), Some(c)) => {
                        if creation_may_belong_to_run(c, s, facts.slack) {
                            TimeEvidence::Plausible
                        } else {
                            TimeEvidence::TooLate
                        }
                    },
                    _ => TimeEvidence::Unknown,
                };
                if time == TimeEvidence::TooLate && lock == LockEvidence::Absent {
                    Inspection::ReadExecutable { pid, lock, time }
                } else {
                    Inspection::Recheck { pid, lock, time, exe: ExeEvidence::Unknown }
                }
            },
            (Inspection::ReadExecutable { pid, lock, time }, Finding::Executable(exe)) => {
                Inspection::Recheck { pid, lock, time, exe }
            },
            (Inspection::Recheck { pid, lock, time, exe }, Finding::Exited(exited)) => {
                if let Some(true) = exited {
                    Inspection::Finished(RecordedRuntime::Dead)
                } else {
                    match verdict(lock, time, exe) {
                        Some(proof) => Inspection::Finished(
                            RecordedRuntime::Live(RuntimeProcess { pid, proof, identified: true }),
                        ),
                        None => Inspection::Finished(RecordedRuntime::Recycled),
                    }
                }
            },
            _ => self,
        }
    }

    fn lock_known(facts: RunFacts, pid: i32, lock: LockEvidence) -> (r: Inspection)
        ensures
            r == after_lock(facts, pid, lock),
    {
        if facts.started_at.is_some() {
            Inspection::ReadCreation { pid, lock }
        } else {
            Inspection::Recheck {
                pid,
                lock,
                time: TimeEvidence::Unknown,
                exe: ExeEvidence::Unknown,
            }
        }
    }
}

/// The step that a list of findings leads to.
pub open spec fn inspection_run(facts: RunFacts, findings: Seq<Finding>) -> Inspection
    decreases findings.len(),
{
    if findings.len() == 0 {
        inspection_start(facts)
    } else {
        inspection_next(
            inspection_run(facts, findings.drop_last()),
            findings.last(),
            facts,
        )
    }
}

/// Whether a step names the PID of the run row, or none.
pub open spec fn about(step: Inspection, facts: RunFacts) -> bool {
    match step {
        Inspection::Capture { pid } => facts.pid == Some(pid) && pid > 0,
        Inspection::ProbeAlive { pid } => facts.pid == Some(pid) && pid > 0,
        Inspection::ReadLock { pid } => facts.pid == Some(pid) && pid > 0,
        Inspection::ReadCreation { pid, lock } => facts.pid == Some(pid) && pid > 0,
        Inspection::ReadExecutable { pid, lock, time } => facts.pid == Some(pid) && pid > 0,
        Inspection::Recheck { pid, lock, time, exe } => facts.pid == Some(pid) && pid > 0,
        Inspection::Finished(RecordedRuntime::Live(process)) => facts.pid == Some(process.pid)
            && process.pid > 0,
        Inspection::Finished(_) => true,
    }
}

/// Whatever is found out, only the recorded PID is ever looked at or called live.
pub proof fn only_the_recorded_pid(facts: RunFacts, findings: Seq<Finding>)
    ensures
        about(inspection_run(facts, findings), facts),
    decreases findings.len(),
{
    if findings.len() > 0 {
        only_the_recorded_pid(facts, findings.drop_last());
    }
}

/// A PID is judged recycled only on a finding of another sandbox's lock, or of a creation after
/// the start of the run together with names that were asked for and are not `msb`.
pub proof fn recycled_only_on_evidence(facts: RunFacts, findings: Seq<Finding>)
    requires
        inspection_run(facts, findings) == Inspection::Finished(RecordedRuntime::Recycled),
    ensures
        ({
            ||| findings.contains(Finding::Lock(LockEvidence::OtherSandbox))
            ||| late_creation_found(facts, findings) && (findings.contains(
                Finding::Executable(ExeEvidence::Other),
            ) || findings.contains(Finding::Executable(ExeEvidence::Unknown)))
        }),
    decreases findings.len(),
{
    lemma_evidence_was_found(facts, findings);
    if findings.len() > 0 {
        let before = findings.drop_last();
        let step = inspection_run(facts, before);
        lemma_evidence_was_found(facts, before);
        if step == Inspection::Finished(RecordedRuntime::Recycled) {
            recycled_only_on_evidence(facts, before);
        }
        assert forall|f: Finding| before.contains(f) implies findings.contains(f) by {
            let i = choose|i: int| 0 <= i < before.len() && before[i] == f;
            assert(findings[i] == f);
        }
        assert forall|i: int| 0 <= i < before.len() implies before[i] == #[trigger] findings[i] by {
        }
    }
}

/// Whether a creation after the start of the run, plus slack, was found.
pub open spec fn late_creation_found(facts: RunFacts, findings: Seq<Finding>) -> bool {
    exists|i: int, created: i64|
        0 <= i < findings.len() && #[trigger] findings[i] == Finding::Created(Some(created))
            && facts.started_at is Some && !(#[trigger] in_time(
            created,
            facts.started_at->0,
            facts.slack,
        ))
}

/// Whether a lock finding, or its absence, is on record.
spec fn lock_on_record(facts: RunFacts, findings: Seq<Finding>, lock: LockEvidence) -> bool {
    lock == LockEvidence::OtherSandbox ==> findings.contains(
        Finding::Lock(LockEvidence::OtherSandbox),
    )
}

/// Whether a late creation is on record.
spec fn time_on_record(facts: RunFacts, findings: Seq<Finding>, time: TimeEvidence) -> bool {
    time == TimeEvidence::TooLate ==> late_creation_found(facts, findings)
}

proof fn lemma_evidence_was_found(facts: RunFacts, findings: Seq<Finding>)
    ensures
        match inspection_run(facts, findings) {
            Inspection::ReadCreation { pid, lock } => lock_on_record(facts, findings, lock),
            Inspection::ReadExecutable { pid, lock, time } => lock_on_record(facts, findings, lock)
                && time_on_record(facts, findings, time),
            Inspection::Recheck { pid, lock, time, exe } => lock_on_record(facts, findings, lock)
                && time_on_record(facts, findings, time) && (lock == LockEvidence::Absent && time
                == TimeEvidence::TooLate ==> findings.contains(Finding::Executable(exe))),
            _ => true,
        },
    decreases findings.len(),
{
    if findings.len() > 0 {
        let before = findings.drop_last();
        lemma_evidence_was_found(facts, before);
        let last = findings.last();
        assert(findings[findings.len() - 1] == last);
        assert(findings.contains(last));
        assert forall|f: Finding| before.contains(f) implies findings.contains(f) by {
            let i = choose|i: int| 0 <= i < before.len() && before[i] == f;
            assert(findings[i] == f);
        }
        assert forall|i: int| 0 <= i < before.len() implies before[i] == #[trigger] findings[i] by {
        }
        match (inspection_run(facts, before), last) {
            (Inspection::ReadCreation { pid, lock }, Finding::Created(Some(created))) => {
                if facts.started_at is Some && !in_time(
                    created,
                    facts.started_at->0,
                    facts.slack,
                ) {
                    assert(findings[findings.len() - 1] == Finding::Created(Some(created)));
                }
            },
            _ => {},
        }
    }
}

impl RecordedRuntime {
    /// The live process, if any.
    pub fn live(self) -> (r: Option<RuntimeProcess>)
        ensures
            r == match self {
                RecordedRuntime::Live(process) => Some(process),
                _ => None,
            },
    {
        match self {
            RecordedRuntime::Live(process) => Some(process),
            RecordedRuntime::Dead | RecordedRuntime::Recycled => None,
        }
    }

    /// Whether the row still has a runtime behind it.
    pub fn is_live(&self) -> (r: bool)
        ensures
            r == (*self is Live),
    {
        matches!(self, RecordedRuntime::Live(_))
    }
}

impl RuntimeProcess {
    /// The process ID.
    pub fn pid(&self) -> (r: i32)
        ensures
            r == self.pid,
    {
        self.pid
    }

    /// How the process was tied to its run row.
    pub fn proof_of_identity(&self) -> (r: Proof)
        ensures
            r == self.proof,
    {
        self.proof
    }

    /// Whether this process instance has exited. `observed` is what its identity shows, where
    /// that can be seen; `pid_alive` whether any process has the PID.
    ///
    /// An identity that can no longer be observed counts as exited. The bare PID counts only for
    /// a process whose identity could not be read from the start.
    pub fn has_exited(&self, observed: Option<bool>, pid_alive: bool) -> (r: bool)
        ensures
            r == if self.identified {
                observed != Some(false)
            } else {
                !pid_alive
            },
    {
        if self.identified {
            match observed {
                Some(exited) => exited,
                None => true,
            }
        } else {
            !pid_alive
        }
    }

    /// Whether a signal goes to the captured instance, rather than to whatever has the PID.
    pub fn signals_instance(&self) -> (r: bool)
        ensures
            r == self.identified,
    {
        self.identified
    }
}

/// The number of a signal on Linux.
pub open spec fn signal_code(signal: RuntimeSignal) -> i32 {
    match signal {
        RuntimeSignal::Terminate => 15,
        RuntimeSignal::Kill => 9,
        RuntimeSignal::Drain => 10,
    }
}

/// The number of a signal on Linux.
pub fn signal_number(signal: RuntimeSignal) -> (r: i32)
    ensures
        r == signal_code(signal),
{
    match signal {
        RuntimeSignal::Terminate => 15,
        RuntimeSignal::Kill => 9,
        RuntimeSignal::Drain => 10,
    }
}

/// The number of a signal on macOS.
pub open spec fn macos_signal_code(signal: RuntimeSignal) -> i32 {
    match signal {
        RuntimeSignal::Terminate => 15,
        RuntimeSignal::Kill => 9,
        RuntimeSignal::Drain => 30,
    }
}

/// The number of a signal on macOS.
pub fn macos_signal_number(signal: RuntimeSignal) -> (r: i32)
    ensures
        r == macos_signal_code(signal),
{
    match signal {
        RuntimeSignal::Terminate => 15,
        RuntimeSignal::Kill => 9,
        RuntimeSignal::Drain => 30,
    }
}

// ------------------------------------------------------------------------------------------------
// What a recorded PID turns out to be
// ------------------------------------------------------------------------------------------------

/// The table in full: the sandbox's own lock is proof, another's is proof of the contrary; without
/// either a process that was there in time is the runtime, one whose time is unknown is taken for
/// it, and one that came too late only where it is `msb`.
pub proof fn evidence_is_weighed(lock: LockEvidence, time: TimeEvidence, exe: ExeEvidence)
    ensures
        lock == LockEvidence::Matches ==> judged(lock, time, exe) == Some(Proof::LifecycleLock),
        lock == LockEvidence::OtherSandbox ==> judged(lock, time, exe) is None,
        lock == LockEvidence::Absent && time == TimeEvidence::Plausible ==> judged(lock, time, exe)
            == Some(Proof::StartedBeforeRun),
        lock == LockEvidence::Absent && time == TimeEvidence::Unknown ==> judged(lock, time, exe)
            == Some(Proof::Unverified),
        lock == LockEvidence::Absent && time == TimeEvidence::TooLate && exe == ExeEvidence::Msb
            ==> judged(lock, time, exe) == Some(Proof::Unverified),
        lock == LockEvidence::Absent && time == TimeEvidence::TooLate && exe != ExeEvidence::Msb
            ==> judged(lock, time, exe) is None,
{
}

/// A live runtime is found to be one. Its instance is captured, its lock is read where the lock is
/// known, its creation where the start is known, its names where it came too late without a lock;
/// and unless it exited meanwhile, all that was found is weighed.
pub proof fn live_runtimes_are_found(
    facts: RunFacts,
    pid: i32,
    lock: LockEvidence,
    created: Option<i64>,
    exe: ExeEvidence,
    exited: Option<bool>,
)
    requires
        facts.pid == Some(pid),
        pid > 0,
        exited != Some(true),
    ensures
        ({
            let captured = inspection_next(
                inspection_start(facts),
                Finding::Captured(true),
                facts,
            );
            let known = if facts.has_lifecycle {
                lock
            } else {
                LockEvidence::Absent
            };
            let locked = if facts.has_lifecycle {
                inspection_next(captured, Finding::Lock(lock), facts)
            } else {
                captured
            };
            let time = if facts.started_at is None || created is None {
                TimeEvidence::Unknown
            } else if created->0 <= facts.started_at->0 + facts.slack {
                TimeEvidence::Plausible
            } else {
                TimeEvidence::TooLate
            };
            let timed = if facts.started_at is Some {
                inspection_next(locked, Finding::Created(created), facts)
            } else {
                locked
            };
            let asks = time == TimeEvidence::TooLate && known == LockEvidence::Absent;
            let named = if asks {
                inspection_next(timed, Finding::Executable(exe), facts)
            } else {
                timed
            };
            let end = inspection_next(named, Finding::Exited(exited), facts);
            let weighed = judged(
                known,
                time,
                if asks {
                    exe
                } else {
                    ExeEvidence::Unknown
                },
            );
            &&& inspection_start(facts) == (Inspection::Capture { pid })
            &&& facts.has_lifecycle ==> captured == (Inspection::ReadLock { pid })
            &&& facts.started_at is Some ==> locked == (Inspection::ReadCreation {
                pid,
                lock: known,
            })
            &&& asks ==> timed == (Inspection::ReadExecutable { pid, lock: known, time })
            &&& named is Recheck
            &&& weighed is Some ==> end == Inspection::Finished(
                RecordedRuntime::Live(
                    RuntimeProcess { pid, proof: weighed->0, identified: true },
                ),
            )
            &&& weighed is None ==> end == Inspection::Finished(RecordedRuntime::Recycled)
        }),
{
}

/// The dead are found dead: where no PID is recorded, where no process has it any more, and where
/// the instance exits while it is looked at. A process that is there and cannot be read is taken
/// for the runtime.
pub proof fn the_dead_are_found_dead(
    facts: RunFacts,
    pid: i32,
    lock: LockEvidence,
    time: TimeEvidence,
    exe: ExeEvidence,
)
    ensures
        facts.pid is None ==> inspection_start(facts) == Inspection::Finished(
            RecordedRuntime::Dead,
        ),
        facts.pid is Some && facts.pid->0 <= 0 ==> inspection_start(facts) == Inspection::Finished(
            RecordedRuntime::Dead,
        ),
        inspection_next(Inspection::Capture { pid }, Finding::Captured(false), facts) == (
        Inspection::ProbeAlive { pid }),
        inspection_next(Inspection::ProbeAlive { pid }, Finding::Alive(false), facts)
            == Inspection::Finished(RecordedRuntime::Dead),
        inspection_next(Inspection::ProbeAlive { pid }, Finding::Alive(true), facts)
            == Inspection::Finished(
            RecordedRuntime::Live(
                RuntimeProcess { pid, proof: Proof::Unverified, identified: false },
            ),
        ),
        inspection_next(
            Inspection::Recheck { pid, lock, time, exe },
            Finding::Exited(Some(true)),
            facts,
        ) == Inspection::Finished(RecordedRuntime::Dead),
{
}

/// An inspection goes by what its step asks for: other findings change nothing, and nothing follows
/// its end.
pub proof fn stray_findings_do_not_count(step: Inspection, finding: Finding, facts: RunFacts)
    requires
        match step {
            Inspection::Capture { .. } => !(finding is Captured),
            Inspection::ProbeAlive { .. } => !(finding is Alive),
            Inspection::ReadLock { .. } => !(finding is Lock),
            Inspection::ReadCreation { .. } => !(finding is Created),
            Inspection::ReadExecutable { .. } => !(finding is Executable),
            Inspection::Recheck { .. } => !(finding is Exited),
            Inspection::Finished(_) => true,
        },
    ensures
        inspection_next(step, finding, facts) == step,
{
}

/// A creation is in time up to the slack after the start, and is judged only where both times are
/// known.
pub proof fn creations_are_held_against_the_start(created: i64, started_at: i64, slack: i64)
    ensures
        creation_evidence(Some(started_at), Some(created), slack) == if created <= started_at
            + slack {
            TimeEvidence::Plausible
        } else {
            TimeEvidence::TooLate
        },
        creation_evidence(None, Some(created), slack) == TimeEvidence::Unknown,
        creation_evidence(Some(started_at), None, slack) == TimeEvidence::Unknown,
{
}

/// The very same file is this sandbox's lock, whatever its name. Otherwise the name counts: the
/// lock's own name is this sandbox's, another lock's name in a directory of locks is another
/// sandbox's, and everything else says nothing.
pub proof fn locks_are_told_apart(link: Seq<char>, lifecycle: Seq<char>)
    ensures
        descriptor_evidence(Some(true), Some(link), lifecycle) == LockEvidence::Matches,
        descriptor_evidence(Some(true), None, lifecycle) == LockEvidence::Matches,
        descriptor_evidence(Some(false), None, lifecycle) == LockEvidence::Absent,
        descriptor_evidence(None, None, lifecycle) == LockEvidence::Absent,
        link_name(link) is None ==> descriptor_evidence(Some(false), Some(link), lifecycle)
            == LockEvidence::Absent,
        link_name(link) is Some && file_name(lifecycle) == link_name(link) ==> descriptor_evidence(
            Some(false),
            Some(link),
            lifecycle,
        ) == LockEvidence::Matches && descriptor_evidence(None, Some(link), lifecycle)
            == LockEvidence::Matches,
        link_name(link) is Some && file_name(lifecycle) != link_name(link) ==> (
        descriptor_evidence(Some(false), Some(link), lifecycle) == if parent_name(link) == Some(
            "locks"@,
        ) && is_lock_name(link_name(link)->0) {
            LockEvidence::OtherSandbox
        } else {
            LockEvidence::Absent
        }),
{
}

/// A lock is named by thirty-two hexadecimal digits and its ending, and by nothing else.
pub proof fn lock_names_have_their_shape(hash: Seq<char>)
    ensures
        is_lock_name(hash + ".lock"@) <==> hash.len() == 32 && forall|i: int|
            0 <= i < hash.len() ==> is_hex_digit(#[trigger] hash[i]),
{
    reveal_strlit(".lock");
    let name = hash + ".lock"@;
    assert(".lock"@.len() == 5);
    assert(name.skip(name.len() - 5) =~= ".lock"@);
    assert(name.take(name.len() - 5) =~= hash);
}

/// One name that is `msb` is enough, other names are others, and no name is unknown.
pub proof fn one_name_is_enough(exe: Option<Seq<char>>, command: Option<Seq<char>>)
    ensures
        exe is Some && file_name(exe->0) == Some("msb"@) ==> names_evidence(exe, command)
            == ExeEvidence::Msb,
        command is Some && file_name(command->0) == Some("msb"@) ==> names_evidence(exe, command)
            == ExeEvidence::Msb,
        exe is None && command is None ==> names_evidence(exe, command) == ExeEvidence::Unknown,
        (exe is Some || command is Some) && !(exe is Some && file_name(exe->0) == Some("msb"@))
            && !(command is Some && file_name(command->0) == Some("msb"@)) ==> names_evidence(
            exe,
            command,
        ) == ExeEvidence::Other,
{
}

/// A link loses exactly the marker of a target that was unlinked.
pub proof fn links_lose_their_marker(link: Seq<char>, name: Seq<char>)
    requires
        file_name(link) is Some,
    ensures
        file_name(link) == Some(name + " (deleted)"@) ==> link_name(link) == Some(name),
        !has_suffix(file_name(link)->0, " (deleted)"@) ==> link_name(link) == file_name(link),
{
    let marker = " (deleted)"@;
    let full = name + marker;
    assert(full.skip(full.len() - marker.len()) =~= marker);
    assert(full.take(full.len() - marker.len()) =~= name);
}

/// Each signal has its own number on each platform: termination and killing the same on both, the
/// drain not.
pub proof fn signals_have_their_numbers()
    ensures
        signal_code(RuntimeSignal::Terminate) == 15,
        signal_code(RuntimeSignal::Kill) == 9,
        signal_code(RuntimeSignal::Drain) == 10,
        macos_signal_code(RuntimeSignal::Terminate) == 15,
        macos_signal_code(RuntimeSignal::Kill) == 9,
        macos_signal_code(RuntimeSignal::Drain) == 30,
{
}

} // verus!
