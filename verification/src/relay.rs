//! Waiting for a booting sandbox to answer.

use vstd::prelude::*;

use crate::agent_socket::LocalBackend;
use crate::error::{BootError, BootErrorStage, BootErrorStageView, BootErrorView, ErrorView, MicrosandboxError};
use crate::outside::{quoted, quoted_text, seconds, seconds_text};

verus! {

/// Nanoseconds that a sandbox gets to expose its agent relay.
pub const AGENT_RELAY_READY_TIMEOUT: u64 = 180_000_000_000;

/// Milliseconds before the first retry.
pub const FIRST_BACKOFF_MS: u64 = 1;

/// The most milliseconds before a retry.
pub const MAX_BACKOFF_MS: u64 = 10;

/// The failure of a sandbox that recorded why it did not boot.
pub open spec fn boot_start(name: Seq<char>, err: BootErrorView) -> ErrorView {
    ErrorView::BootStart { name, err }
}

/// The record that stands in for a process that left none.
pub open spec fn synthetic(t: Seq<char>, status: Seq<char>) -> BootErrorView {
    BootErrorView {
        t,
        stage: BootErrorStageView::Other,
        errno: None,
        message: "sandbox process exited ("@ + status
            + ") before agent relay became available"@,
    }
}

/// The record that stands in for a process that died without leaving one.
pub fn synthetic_boot_error(t: &str, status: &str) -> (r: BootError)
    ensures
        r@ == synthetic(t@, status@),
{
    let mut message = "sandbox process exited (".to_owned();
    message.append(status);
    message.append(") before agent relay became available");
    BootError { t: t.to_owned(), stage: BootErrorStage::Other, errno: None, message }
}

impl LocalBackend {
    /// The failure that a boot record stands for, if there is a record.
    pub fn read_boot_start_error(record: Option<BootError>, sandbox_name: &str) -> (r: Option<
        MicrosandboxError,
    >)
        ensures
            match record {
                Some(err) => r matches Some(e) && e@ == boot_start(sandbox_name@, err@),
                None => r is None,
            },
    {
        match record {
            Some(err) => Some(
                MicrosandboxError::BootStart { name: sandbox_name.to_owned(), err },
            ),
            None => None,
        }
    }
}

/// The failure of a sandbox that did not answer in time, with the time as text.
pub open spec fn readiness_timeout(
    name: Seq<char>,
    time: Seq<char>,
    last_error: Seq<char>,
) -> ErrorView {
    ErrorView::Runtime(
        "sandbox "@ + quoted_text(name) + " startup timed out after "@ + time
            + " seconds before agent readiness; restore preparation may still be pending; last connection error: "@
            + last_error,
    )
}

/// The failure of a sandbox that did not answer in time, with the time as text.
pub fn readiness_timeout_error(sandbox_name: &str, time: &str, last_error: &str) -> (r:
    MicrosandboxError)
    ensures
        r@ == readiness_timeout(sandbox_name@, time@, last_error@),
{
    let mut message = "sandbox ".to_owned();
    message.append(quoted(sandbox_name).as_str());
    message.append(" startup timed out after ");
    message.append(time);
    message.append(
        " seconds before agent readiness; restore preparation may still be pending; last connection error: ",
    );
    message.append(last_error);
    MicrosandboxError::Runtime(message)
}

/// The failure of a sandbox that did not answer within `timeout_nanos`. The expired time is kept
/// apart from the last failure of a connection.
pub fn relay_readiness_timeout(sandbox_name: &str, timeout_nanos: u64, last_error: &str) -> (r:
    MicrosandboxError)
    ensures
        r@ == readiness_timeout(sandbox_name@, seconds_text(timeout_nanos), last_error@),
{
    let time = seconds(timeout_nanos);
    readiness_timeout_error(sandbox_name, time.as_str(), last_error)
}

/// Why the wait for a relay ended without one.
#[derive(Clone, Copy, Debug, PartialEq, Eq, Structural)]
pub enum RelayFailure {
    /// The sandbox process recorded why.
    Recorded,
    /// The sandbox process exited and left no record.
    Exited,
    /// Time ran out.
    TimedOut,
    /// The host could not say whether the process lives.
    Host,
}

/// What the wait for a relay does next.
#[derive(Clone, Copy, Debug, PartialEq, Eq, Structural)]
pub enum RelayStep {
    /// Try to connect.
    Connect { backoff_ms: u64 },
    /// See whether the sandbox process is alive.
    CheckProcess { backoff_ms: u64 },
    /// Wait for the backoff, but not beyond the deadline.
    Sleep { backoff_ms: u64 },
    /// Look for a boot record.
    ReadRecord { exited: bool },
    /// Remove a boot record of an earlier attempt.
    ClearRecord,
    /// The relay answers.
    Ready,
    /// It does not.
    Failed(RelayFailure),
}

/// What happened to the wait.
#[derive(Clone, Copy, Debug, PartialEq, Eq, Structural)]
pub enum RelayEvent {
    Connected,
    /// No connection; whether there is time left.
    NotConnected { time_left: bool },
    /// Whether the sandbox process has exited.
    Process { exited: bool },
    /// Whether there is a boot record.
    Record(bool),
    Done,
    Failed,
}

/// The backoff after `ms`: twice as long, up to the most.
pub open spec fn doubled(ms: u64) -> u64 {
    if 2 * ms > MAX_BACKOFF_MS {
        MAX_BACKOFF_MS
    } else {
        (2 * ms) as u64
    }
}

/// The step after an event. An event that the step does not expect changes nothing.
pub open spec fn relay_next(step: RelayStep, event: RelayEvent) -> RelayStep {
    match (step, event) {
        (RelayStep::Connect { backoff_ms }, RelayEvent::Connected) => RelayStep::ClearRecord,
        (RelayStep::Connect { backoff_ms }, RelayEvent::NotConnected { time_left }) => {
            if time_left {
                RelayStep::CheckProcess { backoff_ms }
            } else {
                RelayStep::ReadRecord { exited: false }
            }
        },
        (RelayStep::CheckProcess { backoff_ms }, RelayEvent::Process { exited }) => if exited {
            RelayStep::ReadRecord { exited: true }
        } else {
            RelayStep::Sleep { backoff_ms }
        },
        (RelayStep::CheckProcess { backoff_ms }, RelayEvent::Failed) => RelayStep::Failed(
            RelayFailure::Host,
        ),
        (RelayStep::Sleep { backoff_ms }, RelayEvent::Done) => RelayStep::Connect {
            backoff_ms: doubled(backoff_ms),
        },
        (RelayStep::ReadRecord { exited }, RelayEvent::Record(found)) => RelayStep::Failed(
            if found {
                RelayFailure::Recorded
            } else if exited {
                RelayFailure::Exited
            } else {
                RelayFailure::TimedOut
            },
        ),
        (RelayStep::ClearRecord, RelayEvent::Done) => RelayStep::Ready,
        (RelayStep::ClearRecord, RelayEvent::Failed) => RelayStep::Ready,
        _ => step,
    }
}

impl RelayStep {
    /// Begins to wait.
    pub fn start() -> (r: RelayStep)
        ensures
            r == (RelayStep::Connect { backoff_ms: FIRST_BACKOFF_MS }),
    {
        RelayStep::Connect { backoff_ms: FIRST_BACKOFF_MS }
    }

    /// Takes an event into account.
    pub fn advance(self, event: RelayEvent) -> (r: RelayStep)
        ensures
            r == relay_next(self, event),
    {
        match (self, event) {
            (RelayStep::Connect { .. }, RelayEvent::Connected) => RelayStep::ClearRecord,
            (RelayStep::Connect { backoff_ms }, RelayEvent::NotConnected { time_left }) => {
                if time_left {
                    RelayStep::CheckProcess { backoff_ms }
                } else {
                    RelayStep::ReadRecord { exited: false }
                }
            },
            (RelayStep::CheckProcess { backoff_ms }, RelayEvent::Process { exited }) => {
                if exited {
                    RelayStep::ReadRecord { exited: true }
                } else {
                    RelayStep::Sleep { backoff_ms }
                }
            },
            (RelayStep::CheckProcess { .. }, RelayEvent::Failed) => {
                RelayStep::Failed(RelayFailure::Host)
            },
            (RelayStep::Sleep { backoff_ms }, RelayEvent::Done) => {
                let next: u64 = if backoff_ms > MAX_BACKOFF_MS / 2 {
                    MAX_BACKOFF_MS
                } else {
                    backoff_ms * 2
                };
                RelayStep::Connect { backoff_ms: next }
            },
            (RelayStep::ReadRecord { exited }, RelayEvent::Record(found)) => {
                if found {
                    RelayStep::Failed(RelayFailure::Recorded)
                } else if exited {
                    RelayStep::Failed(RelayFailure::Exited)
                } else {
                    RelayStep::Failed(RelayFailure::TimedOut)
                }
            },
            (RelayStep::ClearRecord, RelayEvent::Done) => RelayStep::Ready,
            (RelayStep::ClearRecord, RelayEvent::Failed) => RelayStep::Ready,
            _ => self,
        }
    }
}

/// The step that a list of events leads to.
pub open spec fn relay_run(events: Seq<RelayEvent>) -> RelayStep
    decreases events.len(),
{
    if events.len() == 0 {
        RelayStep::Connect { backoff_ms: FIRST_BACKOFF_MS }
    } else {
        relay_next(relay_run(events.drop_last()), events.last())
    }
}

/// Retries stay close together: the backoff is at least one millisecond and at most the most.
pub proof fn backoff_stays_short(events: Seq<RelayEvent>)
    ensures
        match relay_run(events) {
            RelayStep::Connect { backoff_ms } => FIRST_BACKOFF_MS <= backoff_ms <= MAX_BACKOFF_MS,
            RelayStep::CheckProcess { backoff_ms } => FIRST_BACKOFF_MS <= backoff_ms
                <= MAX_BACKOFF_MS,
            RelayStep::Sleep { backoff_ms } => FIRST_BACKOFF_MS <= backoff_ms <= MAX_BACKOFF_MS,
            _ => true,
        },
    decreases events.len(),
{
    if events.len() > 0 {
        backoff_stays_short(events.drop_last());
    }
}

/// A wait ends ready only after a connection, and it reports an exit or a timeout only where no
/// boot record was found.
pub proof fn records_come_first(events: Seq<RelayEvent>)
    ensures
        ({
            match relay_run(events) {
                RelayStep::ClearRecord => events.contains(RelayEvent::Connected),
                RelayStep::Ready => events.contains(RelayEvent::Connected),
                RelayStep::ReadRecord { exited } => exited ==> events.contains(
                    RelayEvent::Process { exited: true },
                ),
                RelayStep::Failed(RelayFailure::Exited) => events.contains(
                    RelayEvent::Record(false),
                ) && events.contains(RelayEvent::Process { exited: true }),
                RelayStep::Failed(RelayFailure::TimedOut) => events.contains(
                    RelayEvent::Record(false),
                ),
                RelayStep::Failed(RelayFailure::Recorded) => events.contains(
                    RelayEvent::Record(true),
                ),
                _ => true,
            }
        }),
    decreases events.len(),
{
    if events.len() > 0 {
        let before = events.drop_last();
        records_come_first(before);
        assert(events[events.len() - 1] == events.last());
        assert(events.contains(events.last()));
        assert forall|e: RelayEvent| before.contains(e) implies events.contains(e) by {
            let i = choose|i: int| 0 <= i < before.len() && before[i] == e;
            assert(events[i] == e);
        }
    }
}

/// How long a retry sleeps, given the time that is left.
pub fn relay_sleep_ms(backoff_ms: u64, left_ms: u64) -> (r: u64)
    ensures
        r == if backoff_ms < left_ms {
            backoff_ms
        } else {
            left_ms
        },
{
    if backoff_ms < left_ms {
        backoff_ms
    } else {
        left_ms
    }
}

// ------------------------------------------------------------------------------------------------
// Booting
// ------------------------------------------------------------------------------------------------

/// What a boot depends on.
#[derive(Clone, Copy, Debug, PartialEq, Eq, Structural)]
pub struct BootPlan {
    /// Whether the machine continues from a checkpoint.
    pub restoring: bool,
    /// Whether the ownership of the process is published for others to find.
    pub publishes_owner: bool,
}

/// What a boot does next.
#[derive(Clone, Copy, Debug, PartialEq, Eq, Structural)]
pub enum BootStep {
    /// Spawn the sandbox process.
    Spawn,
    /// Wait until the process has prepared itself.
    AwaitPreparation,
    /// Look for a boot record of a failed preparation.
    ReadRecord,
    /// Terminate the process after a failed preparation.
    TerminateUnprepared,
    /// Look once more: the record may have come during the teardown.
    ReadRecordAgain,
    /// Wait for the agent relay.
    AwaitRelay,
    /// Read the resources of the restored machine.
    ReadResources,
    /// Publish who owns the process.
    PublishOwner,
    /// Terminate the process.
    Terminate,
    /// Let go of the process, which takes it down.
    Abandon,
    /// The sandbox answers.
    Ready,
    /// Nothing runs.
    Failed,
    /// The boot failed, and so did the termination of its process.
    FailedUnclean,
}

/// What happened to the step of a boot.
#[derive(Clone, Copy, Debug, PartialEq, Eq, Structural)]
pub enum BootEvent {
    Done,
    Failed,
}

/// The step once the sandbox answers.
pub open spec fn after_answer(plan: BootPlan) -> BootStep {
    if plan.publishes_owner {
        BootStep::PublishOwner
    } else {
        BootStep::Ready
    }
}

/// The step after an event.
pub open spec fn boot_next(step: BootStep, event: BootEvent, plan: BootPlan) -> BootStep {
    match (step, event) {
        (BootStep::Spawn, BootEvent::Done) => BootStep::AwaitPreparation,
        (BootStep::Spawn, BootEvent::Failed) => BootStep::Failed,
        (BootStep::AwaitPreparation, BootEvent::Done) => BootStep::AwaitRelay,
        (BootStep::AwaitPreparation, BootEvent::Failed) => BootStep::ReadRecord,
        (BootStep::ReadRecord, _) => BootStep::TerminateUnprepared,
        (BootStep::TerminateUnprepared, BootEvent::Done) => BootStep::ReadRecordAgain,
        (BootStep::TerminateUnprepared, BootEvent::Failed) => BootStep::FailedUnclean,
        (BootStep::ReadRecordAgain, _) => BootStep::Failed,
        (BootStep::AwaitRelay, BootEvent::Done) => if plan.restoring {
            BootStep::ReadResources
        } else {
            after_answer(plan)
        },
        (BootStep::AwaitRelay, BootEvent::Failed) => BootStep::Terminate,
        (BootStep::ReadResources, BootEvent::Done) => after_answer(plan),
        (BootStep::ReadResources, BootEvent::Failed) => BootStep::Terminate,
        (BootStep::PublishOwner, BootEvent::Done) => BootStep::Ready,
        (BootStep::PublishOwner, BootEvent::Failed) => BootStep::Abandon,
        (BootStep::Terminate, BootEvent::Done) => BootStep::Failed,
        (BootStep::Terminate, BootEvent::Failed) => BootStep::FailedUnclean,
        (BootStep::Abandon, _) => BootStep::Failed,
        _ => step,
    }
}

impl BootStep {
    /// Takes an event into account.
    pub fn advance(self, event: BootEvent, plan: BootPlan) -> (r: BootStep)
        ensures
            r == boot_next(self, event, plan),
    {
        match (self, event) {
            (BootStep::Spawn, BootEvent::Done) => BootStep::AwaitPreparation,
            (BootStep::Spawn, BootEvent::Failed) => BootStep::Failed,
            (BootStep::AwaitPreparation, BootEvent::Done) => BootStep::AwaitRelay,
            (BootStep::AwaitPreparation, BootEvent::Failed) => BootStep::ReadRecord,
            (BootStep::ReadRecord, _) => BootStep::TerminateUnprepared,
            (BootStep::TerminateUnprepared, BootEvent::Done) => BootStep::ReadRecordAgain,
            (BootStep::TerminateUnprepared, BootEvent::Failed) => BootStep::FailedUnclean,
            (BootStep::ReadRecordAgain, _) => BootStep::Failed,
            (BootStep::AwaitRelay, BootEvent::Done) => {
                if plan.restoring {
                    BootStep::ReadResources
                } else if plan.publishes_owner {
                    BootStep::PublishOwner
                } else {
                    BootStep::Ready
                }
            },
            (BootStep::AwaitRelay, BootEvent::Failed) => BootStep::Terminate,
            (BootStep::ReadResources, BootEvent::Done) => {
                if plan.publishes_owner {
                    BootStep::PublishOwner
                } else {
                    BootStep::Ready
                }
            },
            (BootStep::ReadResources, BootEvent::Failed) => BootStep::Terminate,
            (BootStep::PublishOwner, BootEvent::Done) => BootStep::Ready,
            (BootStep::PublishOwner, BootEvent::Failed) => BootStep::Abandon,
            (BootStep::Terminate, BootEvent::Done) => BootStep::Failed,
            (BootStep::Terminate, BootEvent::Failed) => BootStep::FailedUnclean,
            (BootStep::Abandon, _) => BootStep::Failed,
            _ => self,
        }
    }
}

/// The step that a list of events leads to.
pub open spec fn boot_run(events: Seq<BootEvent>, plan: BootPlan) -> BootStep
    decreases events.len(),
{
    if events.len() == 0 {
        BootStep::Spawn
    } else {
        boot_next(boot_run(events.drop_last(), plan), events.last(), plan)
    }
}

/// Whether a boot was at `step` before the last event.
pub open spec fn boot_passed(events: Seq<BootEvent>, plan: BootPlan, step: BootStep) -> bool {
    exists|n: int|
        0 <= n < events.len() && #[trigger] boot_run(events.take(n), plan) == step
}

proof fn lemma_boot_passed(events: Seq<BootEvent>, plan: BootPlan, step: BootStep)
    requires
        events.len() > 0,
    ensures
        boot_passed(events.drop_last(), plan, step) ==> boot_passed(events, plan, step),
        boot_run(events.drop_last(), plan) == step ==> boot_passed(events, plan, step),
{
    let before = events.drop_last();
    if boot_passed(before, plan, step) {
        let n = choose|n: int|
            0 <= n < before.len() && #[trigger] boot_run(before.take(n), plan) == step;
        assert(before.take(n) =~= events.take(n));
        assert(boot_run(events.take(n), plan) == step);
    }
    if boot_run(before, plan) == step {
        assert(events.take(events.len() - 1) =~= before);
        assert(boot_run(events.take(events.len() - 1), plan) == step);
    }
}

/// A process that was spawned and does not get ready is taken down before the boot fails.
pub proof fn unready_processes_are_taken_down(events: Seq<BootEvent>, plan: BootPlan)
    requires
        boot_run(events, plan) == BootStep::Failed || boot_run(events, plan)
            == BootStep::FailedUnclean,
        boot_passed(events, plan, BootStep::AwaitPreparation),
    ensures
        boot_passed(events, plan, BootStep::TerminateUnprepared) || boot_passed(
            events,
            plan,
            BootStep::Terminate,
        ) || boot_passed(events, plan, BootStep::Abandon),
{
    lemma_takedowns(events, plan);
}

/// How far a boot can be before its process is taken down.
spec fn taken_down(events: Seq<BootEvent>, plan: BootPlan) -> bool {
    boot_passed(events, plan, BootStep::TerminateUnprepared) || boot_passed(
        events,
        plan,
        BootStep::Terminate,
    ) || boot_passed(events, plan, BootStep::Abandon)
}

proof fn lemma_takedowns(events: Seq<BootEvent>, plan: BootPlan)
    ensures
        match boot_run(events, plan) {
            BootStep::Spawn => !boot_passed(events, plan, BootStep::AwaitPreparation),
            BootStep::Failed | BootStep::FailedUnclean => taken_down(events, plan) || !boot_passed(
                events,
                plan,
                BootStep::AwaitPreparation,
            ),
            BootStep::ReadRecordAgain => taken_down(events, plan),
            _ => true,
        },
    decreases events.len(),
{
    if events.len() > 0 {
        let before = events.drop_last();
        lemma_takedowns(before, plan);
        lemma_boot_passed(events, plan, BootStep::TerminateUnprepared);
        lemma_boot_passed(events, plan, BootStep::Terminate);
        lemma_boot_passed(events, plan, BootStep::Abandon);
        let step = BootStep::AwaitPreparation;
        if boot_passed(events, plan, step) && !boot_passed(before, plan, step) {
            let n = choose|n: int|
                0 <= n < events.len() && #[trigger] boot_run(events.take(n), plan) == step;
            assert(before.take(n) =~= events.take(n));
            assert(n == before.len());
            assert(before.take(n) =~= before);
        }
    }
}

/// A boot that continues from a checkpoint is ready only once the resources of the restored
/// machine were read, and every boot only once the relay answered.
pub proof fn ready_means_answered(events: Seq<BootEvent>, plan: BootPlan)
    requires
        boot_run(events, plan) == BootStep::Ready,
    ensures
        boot_passed(events, plan, BootStep::AwaitRelay),
        plan.restoring ==> boot_passed(events, plan, BootStep::ReadResources),
        plan.publishes_owner ==> boot_passed(events, plan, BootStep::PublishOwner),
{
    lemma_answers(events, plan);
}

proof fn lemma_answers(events: Seq<BootEvent>, plan: BootPlan)
    ensures
        match boot_run(events, plan) {
            BootStep::ReadResources => boot_passed(events, plan, BootStep::AwaitRelay),
            BootStep::PublishOwner => boot_passed(events, plan, BootStep::AwaitRelay) && (
            plan.restoring ==> boot_passed(events, plan, BootStep::ReadResources)),
            BootStep::Ready => boot_passed(events, plan, BootStep::AwaitRelay) && (plan.restoring
                ==> boot_passed(events, plan, BootStep::ReadResources)) && (plan.publishes_owner
                ==> boot_passed(events, plan, BootStep::PublishOwner)),
            _ => true,
        },
    decreases events.len(),
{
    if events.len() > 0 {
        lemma_answers(events.drop_last(), plan);
        lemma_boot_passed(events, plan, BootStep::AwaitRelay);
        lemma_boot_passed(events, plan, BootStep::ReadResources);
        lemma_boot_passed(events, plan, BootStep::PublishOwner);
    }
}

/// The failure of a preparation: the record read last counts, then the one read first, then the
/// failure itself.
pub fn preparation_error(
    error: MicrosandboxError,
    first_record: Option<BootError>,
    last_record: Option<BootError>,
    sandbox_name: &str,
) -> (r: MicrosandboxError)
    ensures
        r@ == match (last_record, first_record) {
            (Some(record), _) => boot_start(sandbox_name@, record@),
            (None, Some(record)) => boot_start(sandbox_name@, record@),
            (None, None) => error@,
        },
{
    match LocalBackend::read_boot_start_error(last_record, sandbox_name) {
        Some(e) => e,
        None => match LocalBackend::read_boot_start_error(first_record, sandbox_name) {
            Some(e) => e,
            None => error,
        },
    }
}

/// A failure and the failure of its cleanup, both as text.
pub fn unclean_error(error: &str, cleanup: &str) -> (r: MicrosandboxError)
    ensures
        r@ == ErrorView::Runtime(error@ + "; "@ + cleanup@),
{
    let mut message = error.to_owned();
    message.append("; ");
    message.append(cleanup);
    MicrosandboxError::Runtime(message)
}

/// The failure of a restore whose resources could not be read in time.
pub fn restore_deadline_error() -> (r: MicrosandboxError)
    ensures
        r@ == ErrorView::Runtime(
            "startup deadline expired while reading restored resource targets"@,
        ),
{
    MicrosandboxError::Runtime(
        "startup deadline expired while reading restored resource targets".to_owned(),
    )
}

/// The failure of a machine that is ready but has no record of its run.
pub fn unrecorded_run_error() -> (r: MicrosandboxError)
    ensures
        r@ == ErrorView::Runtime("ready runtime has no run record"@),
{
    MicrosandboxError::Runtime("ready runtime has no run record".to_owned())
}

// ------------------------------------------------------------------------------------------------
// What waiting and booting achieve
// ------------------------------------------------------------------------------------------------

/// A relay that answers is found, and what an earlier attempt recorded is cleared first, whether or
/// not that succeeds. One that does not answer is tried again for as long as there is time and its
/// process lives, after a pause that doubles up to ten milliseconds.
pub proof fn answers_are_waited_for(backoff_ms: u64)
    ensures
        ({
            let attempt = RelayStep::Connect { backoff_ms };
            let found = relay_next(attempt, RelayEvent::Connected);
            let missed = relay_next(attempt, RelayEvent::NotConnected { time_left: true });
            let lives = relay_next(missed, RelayEvent::Process { exited: false });
            let again = relay_next(lives, RelayEvent::Done);
            &&& found == RelayStep::ClearRecord
            &&& relay_next(found, RelayEvent::Done) == RelayStep::Ready
            &&& relay_next(found, RelayEvent::Failed) == RelayStep::Ready
            &&& missed == (RelayStep::CheckProcess { backoff_ms })
            &&& lives == (RelayStep::Sleep { backoff_ms })
            &&& again is Connect
            &&& backoff_ms <= 5 ==> again->Connect_backoff_ms == 2 * backoff_ms
            &&& backoff_ms > 5 ==> again->Connect_backoff_ms == 10
            &&& relay_run(Seq::empty()) == (RelayStep::Connect { backoff_ms: 1 })
        }),
{
}

/// A wait that is over without an answer says why: the record that the process left where there is
/// one, else that the process exited, else that time ran out; and that the host could not tell.
pub proof fn silence_is_explained(backoff_ms: u64)
    ensures
        ({
            let late = relay_next(
                RelayStep::Connect { backoff_ms },
                RelayEvent::NotConnected { time_left: false },
            );
            let dead = relay_next(
                RelayStep::CheckProcess { backoff_ms },
                RelayEvent::Process { exited: true },
            );
            &&& late == (RelayStep::ReadRecord { exited: false })
            &&& dead == (RelayStep::ReadRecord { exited: true })
            &&& relay_next(late, RelayEvent::Record(true)) == RelayStep::Failed(
                RelayFailure::Recorded,
            )
            &&& relay_next(dead, RelayEvent::Record(true)) == RelayStep::Failed(
                RelayFailure::Recorded,
            )
            &&& relay_next(late, RelayEvent::Record(false)) == RelayStep::Failed(
                RelayFailure::TimedOut,
            )
            &&& relay_next(dead, RelayEvent::Record(false)) == RelayStep::Failed(
                RelayFailure::Exited,
            )
            &&& relay_next(RelayStep::CheckProcess { backoff_ms }, RelayEvent::Failed)
                == RelayStep::Failed(RelayFailure::Host)
        }),
{
}

/// A wait goes by what its step asks for: other reports change nothing, and nothing follows its
/// end.
pub proof fn stray_reports_do_not_move_a_wait(step: RelayStep, event: RelayEvent)
    requires
        match step {
            RelayStep::Connect { .. } => event != RelayEvent::Connected && !(event
                is NotConnected),
            RelayStep::CheckProcess { .. } => !(event is Process) && event != RelayEvent::Failed,
            RelayStep::Sleep { .. } => event != RelayEvent::Done,
            RelayStep::ReadRecord { .. } => !(event is Record),
            RelayStep::ClearRecord => event != RelayEvent::Done && event != RelayEvent::Failed,
            _ => true,
        },
    ensures
        relay_next(step, event) == step,
{
}

/// A boot whose steps all succeed is ready: the process is spawned, has prepared itself and
/// answers; a machine that continues from a checkpoint has its resources read; and its owner is
/// published where owners are.
pub proof fn smooth_boots_get_ready(plan: BootPlan)
    ensures
        ({
            let spawned = boot_next(BootStep::Spawn, BootEvent::Done, plan);
            let prepared = boot_next(spawned, BootEvent::Done, plan);
            let answered = boot_next(prepared, BootEvent::Done, plan);
            let read = if plan.restoring {
                boot_next(answered, BootEvent::Done, plan)
            } else {
                answered
            };
            let published = if plan.publishes_owner {
                boot_next(read, BootEvent::Done, plan)
            } else {
                read
            };
            &&& boot_run(Seq::empty(), plan) == BootStep::Spawn
            &&& spawned == BootStep::AwaitPreparation
            &&& prepared == BootStep::AwaitRelay
            &&& plan.restoring ==> answered == BootStep::ReadResources
            &&& plan.publishes_owner ==> read == BootStep::PublishOwner
            &&& published == BootStep::Ready
        }),
{
}

/// A boot that fails takes its process down: one that did not prepare itself is asked for its
/// record, terminated, and asked again; one that does not answer or cannot be read is terminated;
/// one whose owner cannot be published is let go. Nothing runs where nothing was spawned, and a
/// termination that fails is reported.
pub proof fn failed_boots_take_their_process_down(
    step: BootStep,
    event: BootEvent,
    plan: BootPlan,
)
    ensures
        boot_next(BootStep::Spawn, BootEvent::Failed, plan) == BootStep::Failed,
        boot_next(BootStep::AwaitPreparation, BootEvent::Failed, plan) == BootStep::ReadRecord,
        boot_next(BootStep::ReadRecord, event, plan) == BootStep::TerminateUnprepared,
        boot_next(BootStep::TerminateUnprepared, BootEvent::Done, plan)
            == BootStep::ReadRecordAgain,
        boot_next(BootStep::TerminateUnprepared, BootEvent::Failed, plan)
            == BootStep::FailedUnclean,
        boot_next(BootStep::ReadRecordAgain, event, plan) == BootStep::Failed,
        boot_next(BootStep::AwaitRelay, BootEvent::Failed, plan) == BootStep::Terminate,
        boot_next(BootStep::ReadResources, BootEvent::Failed, plan) == BootStep::Terminate,
        boot_next(BootStep::PublishOwner, BootEvent::Failed, plan) == BootStep::Abandon,
        boot_next(BootStep::Terminate, BootEvent::Done, plan) == BootStep::Failed,
        boot_next(BootStep::Terminate, BootEvent::Failed, plan) == BootStep::FailedUnclean,
        boot_next(BootStep::Abandon, event, plan) == BootStep::Failed,
        step == BootStep::Ready || step == BootStep::Failed || step == BootStep::FailedUnclean
            ==> boot_next(step, event, plan) == step,
{
}

/// What a process recorded is reported as it recorded it, under the name of its sandbox; where it
/// left nothing, the report says how it ended.
pub proof fn boot_reports_name_the_sandbox(
    name: Seq<char>,
    record: BootErrorView,
    t: Seq<char>,
    status: Seq<char>,
)
    ensures
        boot_start(name, record) == (ErrorView::BootStart { name, err: record }),
        synthetic(t, status).t == t,
        synthetic(t, status).errno is None,
        synthetic(t, status).stage == BootErrorStageView::Other,
        synthetic(t, status).message == "sandbox process exited ("@ + status
            + ") before agent relay became available"@,
{
}

/// A wait that runs out says for whom, for how long, and what went wrong last.
pub proof fn timeouts_say_what_was_waited_for(
    name: Seq<char>,
    time: Seq<char>,
    last_error: Seq<char>,
)
    ensures
        readiness_timeout(name, time, last_error) == ErrorView::Runtime(
            "sandbox "@ + quoted_text(name) + " startup timed out after "@ + time
                + " seconds before agent readiness; restore preparation may still be pending; last connection error: "@
                + last_error,
        ),
{
}

/// An agent is given three minutes to answer, and is asked at first after a millisecond, then at
/// most every ten.
pub proof fn agents_are_given_time()
    ensures
        AGENT_RELAY_READY_TIMEOUT == 180 * 1_000_000_000,
        FIRST_BACKOFF_MS == 1,
        MAX_BACKOFF_MS == 10,
{
}

} // verus!
