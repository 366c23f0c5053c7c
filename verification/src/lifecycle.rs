//! Starting, stopping, killing and draining a sandbox.

use vstd::prelude::*;

use crate::catalog::{
    identity_failure, is_active, is_startable, replaced, sandbox_replaced, status_is_active,
    status_is_startable, ensure_local_identity,
};
use crate::error::{failure, ErrorView, MicrosandboxError, MicrosandboxResult};
use crate::outside::{quoted, quoted_text};
use crate::spawn::SpawnMode;
use crate::text::{push_signed, signed_decimal};
use crate::types::SandboxStatus;

verus! {

/// Milliseconds for which an operation waits for a runtime or a lock.
pub const WAIT_LIMIT_MS: u64 = 5_000;

/// Milliseconds between looks at a runtime that is to exit.
pub const EXIT_POLL_MS: u64 = 50;

// ------------------------------------------------------------------------------------------------
// Start: decisions
// ------------------------------------------------------------------------------------------------

/// What keeps a record from being started: it is another sandbox, or not at rest.
pub open spec fn start_refusal(
    name: Seq<char>,
    expected_id: Option<i32>,
    id: i32,
    status: SandboxStatus,
) -> Option<ErrorView> {
    match identity_failure(name, expected_id, id) {
        Some(e) => Some(e),
        None => if status == SandboxStatus::Running || status == SandboxStatus::Draining {
            Some(
                ErrorView::SandboxStillRunning(
                    "cannot start sandbox '"@ + name + "': already running"@,
                ),
            )
        } else if !is_startable(status) {
            Some(
                ErrorView::Custom(
                    "cannot start sandbox '"@ + name + "': status is "@ + status.text()
                        + " (expected Created, Stopped, or Crashed)"@,
                ),
            )
        } else {
            None
        },
    }
}

/// Checks a record before it is started.
pub fn check_start(name: &str, expected_id: Option<i32>, id: i32, status: SandboxStatus) -> (r:
    MicrosandboxResult<()>)
    ensures
        failure(r) == start_refusal(name@, expected_id, id, status),
{
    match ensure_local_identity(name, expected_id, id) {
        Err(e) => {
            return Err(e);
        },
        Ok(()) => {},
    }
    if status == SandboxStatus::Running || status == SandboxStatus::Draining {
        let mut message = "cannot start sandbox '".to_owned();
        message.append(name);
        message.append("': already running");
        return Err(MicrosandboxError::SandboxStillRunning(message));
    }
    if !status_is_startable(status) {
        let mut message = "cannot start sandbox '".to_owned();
        message.append(name);
        message.append("': status is ");
        message.append(status.as_str());
        message.append(" (expected Created, Stopped, or Crashed)");
        return Err(MicrosandboxError::Custom(message));
    }
    Ok(())
}

/// What keeps a record that was read again from being started: another sandbox or another start
/// came in between.
pub open spec fn restart_refusal(
    name: Seq<char>,
    id: i32,
    current_id: i32,
    status: SandboxStatus,
) -> Option<ErrorView> {
    if current_id != id {
        Some(replaced(name, id, current_id))
    } else if !is_startable(status) {
        Some(
            ErrorView::SandboxStillRunning(
                "cannot start sandbox "@ + quoted_text(name) + ": status changed to "@
                    + status.text(),
            ),
        )
    } else {
        None
    }
}

/// Checks a record that was read again, under its locks.
pub fn recheck_start(name: &str, id: i32, current_id: i32, status: SandboxStatus) -> (r:
    MicrosandboxResult<()>)
    ensures
        failure(r) == restart_refusal(name@, id, current_id, status),
{
    if current_id != id {
        return Err(sandbox_replaced(name, id, current_id));
    }
    if !status_is_startable(status) {
        let mut message = "cannot start sandbox ".to_owned();
        message.append(quoted(name).as_str());
        message.append(": status changed to ");
        message.append(status.as_str());
        return Err(MicrosandboxError::SandboxStillRunning(message));
    }
    Ok(())
}

/// The failure of a start whose previous runtime does not go away.
pub fn previous_runtime_error(name: &str, pid: i32) -> (r: MicrosandboxError)
    ensures
        r@ == ErrorView::SandboxStillRunning(
            "cannot start sandbox "@ + quoted_text(name@) + ": previous runtime pid "@
                + signed_decimal(pid as int) + " is still alive"@,
        ),
{
    let mut message = "cannot start sandbox ".to_owned();
    message.append(quoted(name).as_str());
    message.append(": previous runtime pid ");
    push_signed(&mut message, pid as i64);
    message.append(" is still alive");
    MicrosandboxError::SandboxStillRunning(message)
}

/// The failure of a start that another transition overtook.
pub open spec fn claim_failure(
    name: Seq<char>,
    id: i32,
    current_id: i32,
    status: SandboxStatus,
) -> ErrorView {
    if current_id != id {
        replaced(name, id, current_id)
    } else {
        ErrorView::SandboxStillRunning(
            "cannot start sandbox "@ + quoted_text(name)
                + ": another lifecycle transition changed status to "@ + status.text(),
        )
    }
}

/// The failure of a start that another transition overtook.
pub fn claim_error(name: &str, id: i32, current_id: i32, status: SandboxStatus) -> (r:
    MicrosandboxError)
    ensures
        r@ == claim_failure(name@, id, current_id, status),
{
    if current_id != id {
        return sandbox_replaced(name, id, current_id);
    }
    let mut message = "cannot start sandbox ".to_owned();
    message.append(quoted(name).as_str());
    message.append(": another lifecycle transition changed status to ");
    message.append(status.as_str());
    MicrosandboxError::SandboxStillRunning(message)
}

/// The failure of a start whose claim was lost before it was ready.
pub fn lost_claim_error(name: &str) -> (r: MicrosandboxError)
    ensures
        r@ == ErrorView::Runtime(
            "sandbox "@ + quoted_text(name@)
                + " lost its Starting state before readiness publication"@,
        ),
{
    let mut message = "sandbox ".to_owned();
    message.append(quoted(name).as_str());
    message.append(" lost its Starting state before readiness publication");
    MicrosandboxError::Runtime(message)
}

// ------------------------------------------------------------------------------------------------
// Start: order
// ------------------------------------------------------------------------------------------------

/// What a start does next.
#[derive(Clone, Copy, Debug, PartialEq, Eq, Structural)]
pub enum StartStep {
    /// Take the transition lock of the name.
    TakeTransition,
    /// Read and reconcile the record, and check it.
    LoadRecord,
    /// Take the lifecycle lock of the name.
    TakeLifecycle,
    /// Read the record again, and check it.
    Recheck,
    /// Look for the process of the last run.
    FindPrevious,
    /// See whether that process is alive.
    ObservePrevious { pid: i32 },
    /// Wait, then look again.
    AwaitPrevious { pid: i32 },
    /// See once more whether that process is alive.
    ConfirmPrevious { pid: i32 },
    /// Wait until the sandbox's own disks are released.
    AwaitDisks,
    /// Check the configuration and what is on disk.
    Validate,
    /// Move the record from rest to starting.
    Claim,
    /// Boot.
    Boot,
    /// Move the record from starting to running.
    Publish,
    /// Record the running configuration.
    RecordConfig,
    /// Let a detached sandbox go.
    Detach,
    /// Move the record from starting to stopped, if it is still starting.
    Unclaim,
    /// Terminate the process that was booted.
    Terminate,
    /// The sandbox runs.
    Started,
    /// The start failed.
    Failed,
}

/// What happened to the step of a start.
#[derive(Clone, Copy, Debug, PartialEq, Eq, Structural)]
pub enum StartEvent {
    Done,
    Failed,
    /// The process of the last run, if one is recorded.
    Previous(Option<i32>),
    /// Whether the process is alive, and how long it has been waited for.
    Alive { alive: bool, waited_ms: u64 },
    /// Whether the record moved.
    Moved(bool),
}

/// The step after an event. An event that the step does not expect changes nothing.
pub open spec fn start_next(step: StartStep, event: StartEvent, mode: SpawnMode) -> StartStep {
    match (step, event) {
        (StartStep::TakeTransition, StartEvent::Done) => StartStep::LoadRecord,
        (StartStep::LoadRecord, StartEvent::Done) => StartStep::TakeLifecycle,
        (StartStep::TakeLifecycle, StartEvent::Done) => StartStep::Recheck,
        (StartStep::Recheck, StartEvent::Done) => StartStep::FindPrevious,
        (StartStep::FindPrevious, StartEvent::Previous(None)) => StartStep::AwaitDisks,
        (StartStep::FindPrevious, StartEvent::Previous(Some(pid))) => {
            StartStep::ObservePrevious { pid }
        },
        (StartStep::ObservePrevious { pid }, StartEvent::Alive { alive, waited_ms }) => {
            if alive && waited_ms < WAIT_LIMIT_MS {
                StartStep::AwaitPrevious { pid }
            } else {
                StartStep::ConfirmPrevious { pid }
            }
        },
        (StartStep::AwaitPrevious { pid }, StartEvent::Done) => StartStep::ObservePrevious { pid },
        (StartStep::ConfirmPrevious { pid }, StartEvent::Alive { alive, waited_ms }) => if alive {
            StartStep::Failed
        } else {
            StartStep::AwaitDisks
        },
        (StartStep::AwaitDisks, StartEvent::Done) => StartStep::Validate,
        (StartStep::Validate, StartEvent::Done) => StartStep::Claim,
        (StartStep::Claim, StartEvent::Moved(moved)) => if moved {
            StartStep::Boot
        } else {
            StartStep::Failed
        },
        (StartStep::Boot, StartEvent::Done) => StartStep::Publish,
        (StartStep::Boot, StartEvent::Failed) => StartStep::Unclaim,
        (StartStep::Publish, StartEvent::Moved(moved)) => if moved {
            StartStep::RecordConfig
        } else {
            StartStep::Terminate
        },
        (StartStep::RecordConfig, StartEvent::Done) => if mode == SpawnMode::Detached {
            StartStep::Detach
        } else {
            StartStep::Started
        },
        (StartStep::RecordConfig, StartEvent::Failed) => StartStep::Terminate,
        (StartStep::Detach, StartEvent::Done) => StartStep::Started,
        (StartStep::Unclaim, StartEvent::Done) => StartStep::Failed,
        (StartStep::Unclaim, StartEvent::Failed) => StartStep::Failed,
        (StartStep::Terminate, StartEvent::Done) => StartStep::Failed,
        (StartStep::TakeTransition, StartEvent::Failed) => StartStep::Failed,
        (StartStep::LoadRecord, StartEvent::Failed) => StartStep::Failed,
        (StartStep::TakeLifecycle, StartEvent::Failed) => StartStep::Failed,
        (StartStep::Recheck, StartEvent::Failed) => StartStep::Failed,
        (StartStep::FindPrevious, StartEvent::Failed) => StartStep::Failed,
        (StartStep::ObservePrevious { pid }, StartEvent::Failed) => StartStep::Failed,
        (StartStep::ConfirmPrevious { pid }, StartEvent::Failed) => StartStep::Failed,
        (StartStep::AwaitDisks, StartEvent::Failed) => StartStep::Failed,
        (StartStep::Validate, StartEvent::Failed) => StartStep::Failed,
        (StartStep::Claim, StartEvent::Failed) => StartStep::Failed,
        (StartStep::Publish, StartEvent::Failed) => StartStep::Failed,
        (StartStep::Detach, StartEvent::Failed) => StartStep::Failed,
        _ => step,
    }
}

impl StartStep {
    /// Takes an event into account.
    pub fn advance(self, event: StartEvent, mode: SpawnMode) -> (r: StartStep)
        ensures
            r == start_next(self, event, mode),
    {
        match (self, event) {
            (StartStep::TakeTransition, StartEvent::Done) => StartStep::LoadRecord,
            (StartStep::LoadRecord, StartEvent::Done) => StartStep::TakeLifecycle,
            (StartStep::TakeLifecycle, StartEvent::Done) => StartStep::Recheck,
            (StartStep::Recheck, StartEvent::Done) => StartStep::FindPrevious,
            (StartStep::FindPrevious, StartEvent::Previous(None)) => StartStep::AwaitDisks,
            (StartStep::FindPrevious, StartEvent::Previous(Some(pid))) => {
                StartStep::ObservePrevious { pid }
            },
            (StartStep::ObservePrevious { pid }, StartEvent::Alive { alive, waited_ms }) => {
                if alive && waited_ms < WAIT_LIMIT_MS {
                    StartStep::AwaitPrevious { pid }
                } else {
                    StartStep::ConfirmPrevious { pid }
                }
            },
            (StartStep::AwaitPrevious { pid }, StartEvent::Done) => {
                StartStep::ObservePrevious { pid }
            },
            (StartStep::ConfirmPrevious { .. }, StartEvent::Alive { alive, .. }) => {
                if alive {
                    StartStep::Failed
                } else {
                    StartStep::AwaitDisks
                }
            },
            (StartStep::AwaitDisks, StartEvent::Done) => StartStep::Validate,
            (StartStep::Validate, StartEvent::Done) => StartStep::Claim,
            (StartStep::Claim, StartEvent::Moved(moved)) => {
                if moved {
                    StartStep::Boot
                } else {
                    StartStep::Failed
                }
            },
            (StartStep::Boot, StartEvent::Done) => StartStep::Publish,
            (StartStep::Boot, StartEvent::Failed) => StartStep::Unclaim,
            (StartStep::Publish, StartEvent::Moved(moved)) => {
                if moved {
                    StartStep::RecordConfig
                } else {
                    StartStep::Terminate
                }
            },
            (StartStep::RecordConfig, StartEvent::Done) => {
                if mode == SpawnMode::Detached {
                    StartStep::Detach
                } else {
                    StartStep::Started
                }
            },
            (StartStep::RecordConfig, StartEvent::Failed) => StartStep::Terminate,
            (StartStep::Detach, StartEvent::Done) => StartStep::Started,
            (StartStep::Unclaim, StartEvent::Done) => StartStep::Failed,
            (StartStep::Unclaim, StartEvent::Failed) => StartStep::Failed,
            (StartStep::Terminate, StartEvent::Done) => StartStep::Failed,
            (StartStep::TakeTransition, StartEvent::Failed) => StartStep::Failed,
            (StartStep::LoadRecord, StartEvent::Failed) => StartStep::Failed,
            (StartStep::TakeLifecycle, StartEvent::Failed) => StartStep::Failed,
            (StartStep::Recheck, StartEvent::Failed) => StartStep::Failed,
            (StartStep::FindPrevious, StartEvent::Failed) => StartStep::Failed,
            (StartStep::ObservePrevious { .. }, StartEvent::Failed) => StartStep::Failed,
            (StartStep::ConfirmPrevious { .. }, StartEvent::Failed) => StartStep::Failed,
            (StartStep::AwaitDisks, StartEvent::Failed) => StartStep::Failed,
            (StartStep::Validate, StartEvent::Failed) => StartStep::Failed,
            (StartStep::Claim, StartEvent::Failed) => StartStep::Failed,
            (StartStep::Publish, StartEvent::Failed) => StartStep::Failed,
            (StartStep::Detach, StartEvent::Failed) => StartStep::Failed,
            _ => self,
        }
    }
}

/// The step that a list of events leads to.
pub open spec fn start_run(events: Seq<StartEvent>, mode: SpawnMode) -> StartStep
    decreases events.len(),
{
    if events.len() == 0 {
        StartStep::TakeTransition
    } else {
        start_next(start_run(events.drop_last(), mode), events.last(), mode)
    }
}

/// What the record of a sandbox says, as far as a start moves it.
#[derive(Clone, Copy, Debug, PartialEq, Eq, Structural)]
pub enum Claim {
    /// At rest, as far as this start goes.
    AtRest,
    /// Starting, by this start.
    Starting,
    /// Running, by this start.
    Running,
    /// Taken over by another transition.
    Lost,
}

/// What a start makes of the record, from the events.
pub open spec fn claim_after(events: Seq<StartEvent>, mode: SpawnMode) -> Claim
    decreases events.len(),
{
    if events.len() == 0 {
        Claim::AtRest
    } else {
        let before = events.drop_last();
        match (start_run(before, mode), events.last()) {
            (StartStep::Claim, StartEvent::Moved(true)) => Claim::Starting,
            (StartStep::Publish, StartEvent::Moved(true)) => Claim::Running,
            (StartStep::Publish, StartEvent::Moved(false)) => Claim::Lost,
            (StartStep::Unclaim, StartEvent::Done) => Claim::AtRest,
            _ => claim_after(before, mode),
        }
    }
}

/// A sandbox is reported as started only when its record runs; a boot happens only under a claim
/// that succeeded; and a failed boot gives its claim back.
pub proof fn starts_own_their_record(events: Seq<StartEvent>, mode: SpawnMode)
    ensures
        ({
            let claim = claim_after(events, mode);
            match start_run(events, mode) {
                StartStep::Boot => claim == Claim::Starting,
                StartStep::Publish => claim == Claim::Starting,
                StartStep::Unclaim => claim == Claim::Starting,
                StartStep::RecordConfig => claim == Claim::Running,
                StartStep::Detach => claim == Claim::Running,
                StartStep::Started => claim == Claim::Running,
                StartStep::Terminate => claim == Claim::Running || claim == Claim::Lost,
                StartStep::Failed => true,
                _ => claim == Claim::AtRest,
            }
        }),
    decreases events.len(),
{
    if events.len() > 0 {
        starts_own_their_record(events.drop_last(), mode);
    }
}

/// Whether a machine was booted on the way.
pub open spec fn booted(events: Seq<StartEvent>, mode: SpawnMode) -> bool
    decreases events.len(),
{
    events.len() > 0 && (booted(events.drop_last(), mode) || (start_run(events.drop_last(), mode)
        == StartStep::Boot && events.last() == StartEvent::Done))
}

/// Whether a claim could not be given back.
pub open spec fn unclaim_failed(events: Seq<StartEvent>, mode: SpawnMode) -> bool
    decreases events.len(),
{
    events.len() > 0 && (unclaim_failed(events.drop_last(), mode) || (start_run(
        events.drop_last(),
        mode,
    ) == StartStep::Unclaim && events.last() == StartEvent::Failed))
}

/// A start that fails without having booted a machine leaves the record at rest, unless the claim
/// could not be given back.
pub proof fn failed_starts_give_their_claim_back(events: Seq<StartEvent>, mode: SpawnMode)
    requires
        start_run(events, mode) == StartStep::Failed,
        !booted(events, mode),
        !unclaim_failed(events, mode),
    ensures
        claim_after(events, mode) == Claim::AtRest,
{
    lemma_failed_starts(events, mode);
}

proof fn lemma_failed_starts(events: Seq<StartEvent>, mode: SpawnMode)
    ensures
        ({
            let step = start_run(events, mode);
            &&& step == StartStep::Failed ==> claim_after(events, mode) == Claim::AtRest || booted(
                events,
                mode,
            ) || unclaim_failed(events, mode)
            &&& step == StartStep::Publish || step == StartStep::RecordConfig || step
                == StartStep::Detach || step == StartStep::Terminate ==> booted(events, mode)
        }),
    decreases events.len(),
{
    starts_own_their_record(events, mode);
    if events.len() > 0 {
        starts_own_their_record(events.drop_last(), mode);
        lemma_failed_starts(events.drop_last(), mode);
    }
}

/// A start that lost its record, or could not record what runs, terminates the machine before it
/// fails. Only a catalog that cannot even say whether the record was moved leaves that to the owner
/// of the process.
pub proof fn unpublished_machines_are_terminated(
    step: StartStep,
    event: StartEvent,
    mode: SpawnMode,
)
    requires
        step == StartStep::Publish || step == StartStep::RecordConfig,
        start_next(step, event, mode) == StartStep::Failed,
    ensures
        step == StartStep::Publish && event == StartEvent::Failed,
{
}

// ------------------------------------------------------------------------------------------------
// Stop
// ------------------------------------------------------------------------------------------------

/// What a stop does next.
#[derive(Clone, Copy, Debug, PartialEq, Eq, Structural)]
pub enum StopStep {
    /// See whether the sandbox is paused.
    ObservePause { status: SandboxStatus },
    /// Drop control sessions and ask the guest agent to shut down.
    RequestShutdown { status: SandboxStatus },
    /// Move the record from running to draining.
    MarkDraining,
    /// The request was delivered, or there was nothing to stop.
    Done,
    /// A paused sandbox cannot stop gracefully.
    Paused,
    /// The request could not be delivered. That is no permission to kill.
    Failed,
}

/// What happened to the step of a stop.
#[derive(Clone, Copy, Debug, PartialEq, Eq, Structural)]
pub enum StopEvent {
    /// Whether the sandbox is paused.
    Pause(bool),
    Done,
    Failed,
}

/// The first step of a stop.
pub open spec fn stop_start(status: SandboxStatus) -> StopStep {
    if is_active(status) {
        StopStep::ObservePause { status }
    } else {
        StopStep::Done
    }
}

/// The step after an event. An event that the step does not expect changes nothing.
pub open spec fn stop_next(step: StopStep, event: StopEvent) -> StopStep {
    match (step, event) {
        (StopStep::ObservePause { status }, StopEvent::Pause(paused)) => if paused {
            StopStep::Paused
        } else {
            StopStep::RequestShutdown { status }
        },
        (StopStep::RequestShutdown { status }, StopEvent::Done) => if status
            == SandboxStatus::Running {
            StopStep::MarkDraining
        } else {
            StopStep::Done
        },
        (StopStep::RequestShutdown { status }, StopEvent::Failed) => StopStep::Failed,
        (StopStep::MarkDraining, StopEvent::Done) => StopStep::Done,
        (StopStep::MarkDraining, StopEvent::Failed) => StopStep::Failed,
        _ => step,
    }
}

impl StopStep {
    /// Begins to stop a sandbox.
    pub fn start(status: SandboxStatus) -> (r: StopStep)
        ensures
            r == stop_start(status),
    {
        if status_is_active(status) {
            StopStep::ObservePause { status }
        } else {
            StopStep::Done
        }
    }

    /// Takes an event into account.
    pub fn advance(self, event: StopEvent) -> (r: StopStep)
        ensures
            r == stop_next(self, event),
    {
        match (self, event) {
            (StopStep::ObservePause { status }, StopEvent::Pause(paused)) => {
                if paused {
                    StopStep::Paused
                } else {
                    StopStep::RequestShutdown { status }
                }
            },
            (StopStep::RequestShutdown { status }, StopEvent::Done) => {
                if status == SandboxStatus::Running {
                    StopStep::MarkDraining
                } else {
                    StopStep::Done
                }
            },
            (StopStep::RequestShutdown { .. }, StopEvent::Failed) => StopStep::Failed,
            (StopStep::MarkDraining, StopEvent::Done) => StopStep::Done,
            (StopStep::MarkDraining, StopEvent::Failed) => StopStep::Failed,
            _ => self,
        }
    }
}

/// The failure of a graceful stop of a paused sandbox.
pub fn paused_stop_error(name: &str) -> (r: MicrosandboxError)
    ensures
        r@ == ErrorView::SandboxNotRunning(
            "cannot gracefully stop paused sandbox "@ + quoted_text(name@)
                + "; resume it first or explicitly kill it"@,
        ),
{
    let mut message = "cannot gracefully stop paused sandbox ".to_owned();
    message.append(quoted(name).as_str());
    message.append("; resume it first or explicitly kill it");
    MicrosandboxError::SandboxNotRunning(message)
}

/// A stop never kills: it ends delivered, refused or failed, and marks a record as draining only
/// after the guest was asked.
pub proof fn stops_only_ask(step: StopStep, event: StopEvent)
    requires
        stop_next(step, event) == StopStep::MarkDraining,
        step != StopStep::MarkDraining,
    ensures
        step == (StopStep::RequestShutdown { status: SandboxStatus::Running }),
        event == StopEvent::Done,
{
}

// ------------------------------------------------------------------------------------------------
// Kill
// ------------------------------------------------------------------------------------------------

/// What a kill does next. `departing` says that the teardown of the runtime can be watched.
#[derive(Clone, Copy, Debug, PartialEq, Eq, Structural)]
pub enum KillStep {
    /// Begin to watch the teardown of the runtime.
    WatchExit,
    /// Judge the recorded runtime.
    Judge { departing: bool },
    /// Kill the runtime.
    Signal { departing: bool },
    /// Wait until it exits, or for as long as an operation waits.
    AwaitExit { departing: bool },
    /// See whether it has exited.
    ObserveExit { departing: bool },
    /// See whether any runtime owns the name.
    ObserveOwner { departing: bool },
    /// Wait until the runtime has released its resources.
    AwaitRelease { dead: bool },
    /// Move the record to stopped.
    MarkStopped,
    /// The kill is over.
    Done,
    /// The runtime did not release its resources in time.
    Unreleased,
    /// The host or the catalog failed.
    Failed,
}

/// What happened to the step of a kill.
#[derive(Clone, Copy, Debug, PartialEq, Eq, Structural)]
pub enum KillEvent {
    /// Whether the teardown can be watched.
    Watching(bool),
    /// Whether the recorded runtime is alive.
    Live(bool),
    /// Whether the runtime has exited.
    Exited(bool),
    /// Whether no runtime owns the name.
    Unowned(bool),
    TimedOut,
    Done,
    Failed,
}

/// The step that follows the verdict on the runtime.
pub open spec fn after_death(departing: bool, dead: bool) -> KillStep {
    if departing {
        KillStep::AwaitRelease { dead }
    } else if dead {
        KillStep::MarkStopped
    } else {
        KillStep::Done
    }
}

/// The first step of a kill.
pub open spec fn kill_start(status: SandboxStatus) -> KillStep {
    if is_active(status) {
        KillStep::WatchExit
    } else {
        KillStep::Done
    }
}

/// The step after an event. An event that the step does not expect changes nothing.
pub open spec fn kill_next(step: KillStep, event: KillEvent) -> KillStep {
    match (step, event) {
        (KillStep::WatchExit, KillEvent::Watching(departing)) => KillStep::Judge { departing },
        (KillStep::WatchExit, KillEvent::Failed) => KillStep::Failed,
        (KillStep::Judge { departing }, KillEvent::Live(live)) => if live {
            KillStep::Signal { departing }
        } else {
            KillStep::ObserveOwner { departing }
        },
        (KillStep::Signal { departing }, KillEvent::Done) => KillStep::AwaitExit { departing },
        (KillStep::Signal { departing }, KillEvent::Failed) => KillStep::Failed,
        (KillStep::AwaitExit { departing }, KillEvent::Done) => KillStep::ObserveExit { departing },
        (KillStep::ObserveExit { departing }, KillEvent::Exited(exited)) => after_death(
            departing,
            exited,
        ),
        (KillStep::ObserveOwner { departing }, KillEvent::Unowned(unowned)) => after_death(
            departing,
            unowned,
        ),
        (KillStep::ObserveOwner { departing }, KillEvent::Failed) => KillStep::Failed,
        (KillStep::AwaitRelease { dead }, KillEvent::Done) => if dead {
            KillStep::MarkStopped
        } else {
            KillStep::Done
        },
        (KillStep::AwaitRelease { dead }, KillEvent::TimedOut) => KillStep::Unreleased,
        (KillStep::AwaitRelease { dead }, KillEvent::Failed) => KillStep::Failed,
        // Failing to record the stop is no failure of the kill.
        (KillStep::MarkStopped, KillEvent::Done) => KillStep::Done,
        (KillStep::MarkStopped, KillEvent::Failed) => KillStep::Done,
        _ => step,
    }
}

impl KillStep {
    /// Begins to kill a sandbox.
    pub fn start(status: SandboxStatus) -> (r: KillStep)
        ensures
            r == kill_start(status),
    {
        if status_is_active(status) {
            KillStep::WatchExit
        } else {
            KillStep::Done
        }
    }

    fn dead_or_not(departing: bool, dead: bool) -> (r: KillStep)
        ensures
            r == after_death(departing, dead),
    {
        if departing {
            KillStep::AwaitRelease { dead }
        } else if dead {
            KillStep::MarkStopped
        } else {
            KillStep::Done
        }
    }

    /// Takes an event into account.
    pub fn advance(self, event: KillEvent) -> (r: KillStep)
        ensures
            r == kill_next(self, event),
    {
        match (self, event) {
            (KillStep::WatchExit, KillEvent::Watching(departing)) => KillStep::Judge { departing },
            (KillStep::WatchExit, KillEvent::Failed) => KillStep::Failed,
            (KillStep::Judge { departing }, KillEvent::Live(live)) => {
                if live {
                    KillStep::Signal { departing }
                } else {
                    KillStep::ObserveOwner { departing }
                }
            },
            (KillStep::Signal { departing }, KillEvent::Done) => KillStep::AwaitExit { departing },
            (KillStep::Signal { .. }, KillEvent::Failed) => KillStep::Failed,
            (KillStep::AwaitExit { departing }, KillEvent::Done) => {
                KillStep::ObserveExit { departing }
            },
            (KillStep::ObserveExit { departing }, KillEvent::Exited(exited)) => {
                Self::dead_or_not(departing, exited)
            },
            (KillStep::ObserveOwner { departing }, KillEvent::Unowned(unowned)) => {
                Self::dead_or_not(departing, unowned)
            },
            (KillStep::ObserveOwner { .. }, KillEvent::Failed) => KillStep::Failed,
            (KillStep::AwaitRelease { dead }, KillEvent::Done) => {
                if dead {
                    KillStep::MarkStopped
                } else {
                    KillStep::Done
                }
            },
            (KillStep::AwaitRelease { .. }, KillEvent::TimedOut) => KillStep::Unreleased,
            (KillStep::AwaitRelease { .. }, KillEvent::Failed) => KillStep::Failed,
            (KillStep::MarkStopped, KillEvent::Done) => KillStep::Done,
            (KillStep::MarkStopped, KillEvent::Failed) => KillStep::Done,
            _ => self,
        }
    }
}

/// The failure of a kill whose runtime does not release its resources.
pub fn unreleased_error(name: &str) -> (r: MicrosandboxError)
    ensures
        r@ == ErrorView::Runtime(
            "sandbox "@ + quoted_text(name@)
                + " runtime has not finished releasing resources after kill"@,
        ),
{
    let mut message = "sandbox ".to_owned();
    message.append(quoted(name).as_str());
    message.append(" runtime has not finished releasing resources after kill");
    MicrosandboxError::Runtime(message)
}

/// The step that a list of events leads to.
pub open spec fn kill_run(status: SandboxStatus, events: Seq<KillEvent>) -> KillStep
    decreases events.len(),
{
    if events.len() == 0 {
        kill_start(status)
    } else {
        kill_next(kill_run(status, events.drop_last()), events.last())
    }
}

/// A kill moves a record to stopped only once the runtime was seen to have exited, or no runtime
/// owns the name. A machine that is merely not found keeps its record.
pub proof fn only_the_dead_are_marked_stopped(status: SandboxStatus, events: Seq<KillEvent>)
    ensures
        ({
            let proven = events.contains(KillEvent::Exited(true)) || events.contains(
                KillEvent::Unowned(true),
            );
            match kill_run(status, events) {
                KillStep::MarkStopped => proven,
                KillStep::AwaitRelease { dead } => dead ==> proven,
                _ => true,
            }
        }),
    decreases events.len(),
{
    if events.len() > 0 {
        let before = events.drop_last();
        only_the_dead_are_marked_stopped(status, before);
        assert(events[events.len() - 1] == events.last());
        assert(events.contains(events.last()));
        assert forall|e: KillEvent| before.contains(e) implies events.contains(e) by {
            let i = choose|i: int| 0 <= i < before.len() && before[i] == e;
            assert(events[i] == e);
        }
    }
}

/// A kill signals a process only after the process was judged to be the recorded runtime.
pub proof fn only_the_runtime_is_signalled(step: KillStep, event: KillEvent)
    requires
        !(step is Signal),
        kill_next(step, event) is Signal,
    ensures
        step is Judge && event == KillEvent::Live(true),
{
}

// ------------------------------------------------------------------------------------------------
// Drain
// ------------------------------------------------------------------------------------------------

/// What a drain does next.
#[derive(Clone, Copy, Debug, PartialEq, Eq, Structural)]
pub enum DrainStep {
    /// Move the record from running to draining.
    MarkDraining,
    /// Judge the recorded runtime.
    Judge,
    /// Ask the runtime to drain: by a signal, or through the guest agent on Windows.
    Ask,
    /// The drain was asked for, or there was nothing to drain.
    Done,
    /// The host, the catalog or the agent failed.
    Failed,
}

/// What happened to the step of a drain.
#[derive(Clone, Copy, Debug, PartialEq, Eq, Structural)]
pub enum DrainEvent {
    /// Whether the recorded runtime is alive.
    Live(bool),
    Done,
    Failed,
}

/// The first step of a drain.
pub open spec fn drain_start(status: SandboxStatus) -> DrainStep {
    if status == SandboxStatus::Running {
        DrainStep::MarkDraining
    } else if status == SandboxStatus::Draining {
        DrainStep::Judge
    } else {
        DrainStep::Done
    }
}

/// The step after an event. An event that the step does not expect changes nothing.
pub open spec fn drain_next(step: DrainStep, event: DrainEvent) -> DrainStep {
    match (step, event) {
        (DrainStep::MarkDraining, DrainEvent::Done) => DrainStep::Judge,
        (DrainStep::MarkDraining, DrainEvent::Failed) => DrainStep::Failed,
        (DrainStep::Judge, DrainEvent::Live(live)) => if live {
            DrainStep::Ask
        } else {
            DrainStep::Done
        },
        (DrainStep::Judge, DrainEvent::Failed) => DrainStep::Failed,
        (DrainStep::Ask, DrainEvent::Done) => DrainStep::Done,
        (DrainStep::Ask, DrainEvent::Failed) => DrainStep::Failed,
        _ => step,
    }
}

impl DrainStep {
    /// Begins to drain a sandbox.
    pub fn start(status: SandboxStatus) -> (r: DrainStep)
        ensures
            r == drain_start(status),
    {
        match status {
            SandboxStatus::Running => DrainStep::MarkDraining,
            SandboxStatus::Draining => DrainStep::Judge,
            _ => DrainStep::Done,
        }
    }

    /// Takes an event into account.
    pub fn advance(self, event: DrainEvent) -> (r: DrainStep)
        ensures
            r == drain_next(self, event),
    {
        match (self, event) {
            (DrainStep::MarkDraining, DrainEvent::Done) => DrainStep::Judge,
            (DrainStep::MarkDraining, DrainEvent::Failed) => DrainStep::Failed,
            (DrainStep::Judge, DrainEvent::Live(live)) => {
                if live {
                    DrainStep::Ask
                } else {
                    DrainStep::Done
                }
            },
            (DrainStep::Judge, DrainEvent::Failed) => DrainStep::Failed,
            (DrainStep::Ask, DrainEvent::Done) => DrainStep::Done,
            (DrainStep::Ask, DrainEvent::Failed) => DrainStep::Failed,
            _ => self,
        }
    }
}

/// A drain asks only a process that was judged to be the recorded runtime.
pub proof fn only_the_runtime_is_drained(step: DrainStep, event: DrainEvent)
    requires
        step != DrainStep::Ask,
        drain_next(step, event) == DrainStep::Ask,
    ensures
        step == DrainStep::Judge && event == DrainEvent::Live(true),
{
}

/// The failure of a drain through the guest agent: a replaced sandbox is reported as such,
/// everything else as an agent that cannot be reached. `text` is the error's own.
pub fn agent_drain_error(error: MicrosandboxError, text: &str) -> (r: MicrosandboxError)
    ensures
        error is SandboxReplaced ==> r@ == error@,
        !(error is SandboxReplaced) ==> r@ == ErrorView::Runtime(
            "windows drain requires the agent shutdown path, but the agent endpoint is unavailable: "@
                + text@,
        ),
{
    match error {
        MicrosandboxError::SandboxReplaced { name, expected, actual } => {
            MicrosandboxError::SandboxReplaced { name, expected, actual }
        },
        _ => {
            let mut message =
                "windows drain requires the agent shutdown path, but the agent endpoint is unavailable: ".to_owned();
            message.append(text);
            MicrosandboxError::Runtime(message)
        },
    }
}

// ------------------------------------------------------------------------------------------------
// Waiting
// ------------------------------------------------------------------------------------------------

/// Whether to wait on for a process that is to exit.
pub fn keep_waiting(exited: bool, waited_ms: u64, limit_ms: u64) -> (r: bool)
    ensures
        r == (!exited && waited_ms < limit_ms),
{
    !exited && waited_ms < limit_ms
}

// ------------------------------------------------------------------------------------------------
// Asking the agent
// ------------------------------------------------------------------------------------------------

/// What comes next in asking the agent of a sandbox to shut it down.
#[derive(Clone, Copy, Debug, PartialEq, Eq, Structural)]
pub enum ShutdownStep {
    /// Look for the recorded owner of the sandbox, where owners are recorded.
    FindOwner,
    /// Connect to the agent, to the one of the owner where there is an owner.
    Connect { owned: bool },
    /// See that the name still stands for the sandbox that is meant.
    CheckIdentity,
    /// Send the request.
    Send,
    /// The request was sent.
    Sent,
    /// The owner has exited.
    OwnerGone,
    /// A step failed.
    Failed,
}

/// What happened in asking the agent.
#[derive(Clone, Copy, Debug, PartialEq, Eq, Structural)]
pub enum ShutdownEvent {
    Done,
    Failed,
    /// No owner is recorded.
    NoOwner,
    /// An owner is recorded, and whether it lives.
    Owner { alive: bool },
}

/// The step after an event. An event that the step does not expect changes nothing.
pub open spec fn shutdown_next(step: ShutdownStep, event: ShutdownEvent) -> ShutdownStep {
    match (step, event) {
        (ShutdownStep::FindOwner, ShutdownEvent::NoOwner) => ShutdownStep::Connect { owned: false },
        (ShutdownStep::FindOwner, ShutdownEvent::Owner { alive: true }) => ShutdownStep::Connect {
            owned: true,
        },
        (ShutdownStep::FindOwner, ShutdownEvent::Owner { alive: false }) => ShutdownStep::OwnerGone,
        (ShutdownStep::FindOwner, ShutdownEvent::Failed) => ShutdownStep::Failed,
        (ShutdownStep::Connect { .. }, ShutdownEvent::Done) => ShutdownStep::CheckIdentity,
        (ShutdownStep::Connect { .. }, ShutdownEvent::Failed) => ShutdownStep::Failed,
        (ShutdownStep::CheckIdentity, ShutdownEvent::Done) => ShutdownStep::Send,
        (ShutdownStep::CheckIdentity, ShutdownEvent::Failed) => ShutdownStep::Failed,
        (ShutdownStep::Send, ShutdownEvent::Done) => ShutdownStep::Sent,
        (ShutdownStep::Send, ShutdownEvent::Failed) => ShutdownStep::Failed,
        _ => step,
    }
}

/// The first step: owners are recorded on Windows only.
pub open spec fn shutdown_start(windows: bool) -> ShutdownStep {
    if windows {
        ShutdownStep::FindOwner
    } else {
        ShutdownStep::Connect { owned: false }
    }
}

impl ShutdownStep {
    /// Begins to ask.
    pub fn start(windows: bool) -> (r: ShutdownStep)
        ensures
            r == shutdown_start(windows),
    {
        if windows {
            ShutdownStep::FindOwner
        } else {
            ShutdownStep::Connect { owned: false }
        }
    }

    /// Takes an event into account.
    pub fn advance(self, event: ShutdownEvent) -> (r: ShutdownStep)
        ensures
            r == shutdown_next(self, event),
    {
        match (self, event) {
            (ShutdownStep::FindOwner, ShutdownEvent::NoOwner) => {
                ShutdownStep::Connect { owned: false }
            },
            (ShutdownStep::FindOwner, ShutdownEvent::Owner { alive }) => {
                if alive {
                    ShutdownStep::Connect { owned: true }
                } else {
                    ShutdownStep::OwnerGone
                }
            },
            (ShutdownStep::FindOwner, ShutdownEvent::Failed) => ShutdownStep::Failed,
            (ShutdownStep::Connect { .. }, ShutdownEvent::Done) => ShutdownStep::CheckIdentity,
            (ShutdownStep::Connect { .. }, ShutdownEvent::Failed) => ShutdownStep::Failed,
            (ShutdownStep::CheckIdentity, ShutdownEvent::Done) => ShutdownStep::Send,
            (ShutdownStep::CheckIdentity, ShutdownEvent::Failed) => ShutdownStep::Failed,
            (ShutdownStep::Send, ShutdownEvent::Done) => ShutdownStep::Sent,
            (ShutdownStep::Send, ShutdownEvent::Failed) => ShutdownStep::Failed,
            _ => self,
        }
    }
}

/// A request is sent only right after the name was seen to still stand for the sandbox that is
/// meant, over a connection that was made before.
pub proof fn requests_reach_the_sandbox_that_is_meant(step: ShutdownStep, event: ShutdownEvent)
    requires
        step != ShutdownStep::Send,
        shutdown_next(step, event) == ShutdownStep::Send,
    ensures
        step == ShutdownStep::CheckIdentity,
        event == ShutdownEvent::Done,
{
}

/// The failure of a request to an owner that has exited.
pub fn owner_gone_error() -> (r: MicrosandboxError)
    ensures
        r@ == ErrorView::Runtime("runtime exited before shutdown dispatch"@),
{
    MicrosandboxError::Runtime("runtime exited before shutdown dispatch".to_owned())
}

// ------------------------------------------------------------------------------------------------
// What the operations achieve
// ------------------------------------------------------------------------------------------------

/// A start whose steps all succeed gets there. It takes both locks and reads the record under each,
/// sees the process of the last run gone, waits for the disks, validates, claims the record, boots,
/// publishes, and records what runs; a detached sandbox is let go. A process that was never there,
/// that is gone at once, and one that was waited for all come to the same.
pub proof fn smooth_starts_succeed(pid: i32, waited_ms: u64, mode: SpawnMode)
    ensures
        start_next(StartStep::TakeTransition, StartEvent::Done, mode) == StartStep::LoadRecord,
        start_next(StartStep::LoadRecord, StartEvent::Done, mode) == StartStep::TakeLifecycle,
        start_next(StartStep::TakeLifecycle, StartEvent::Done, mode) == StartStep::Recheck,
        start_next(StartStep::Recheck, StartEvent::Done, mode) == StartStep::FindPrevious,
        ({
            let found = start_next(
                StartStep::FindPrevious,
                StartEvent::Previous(Some(pid)),
                mode,
            );
            let seen = start_next(found, StartEvent::Alive { alive: false, waited_ms }, mode);
            let gone = start_next(seen, StartEvent::Alive { alive: false, waited_ms }, mode);
            let never = start_next(StartStep::FindPrevious, StartEvent::Previous(None), mode);
            let released = start_next(gone, StartEvent::Done, mode);
            let valid = start_next(released, StartEvent::Done, mode);
            let claimed = start_next(valid, StartEvent::Moved(true), mode);
            let booted = start_next(claimed, StartEvent::Done, mode);
            let published = start_next(booted, StartEvent::Moved(true), mode);
            let recorded = start_next(published, StartEvent::Done, mode);
            &&& found == (StartStep::ObservePrevious { pid })
            &&& seen == (StartStep::ConfirmPrevious { pid })
            &&& gone == StartStep::AwaitDisks
            &&& never == StartStep::AwaitDisks
            &&& released == StartStep::Validate
            &&& valid == StartStep::Claim
            &&& claimed == StartStep::Boot
            &&& booted == StartStep::Publish
            &&& published == StartStep::RecordConfig
            &&& mode == SpawnMode::Attached ==> recorded == StartStep::Started
            &&& mode == SpawnMode::Detached ==> recorded == StartStep::Detach && start_next(
                recorded,
                StartEvent::Done,
                mode,
            ) == StartStep::Started
        }),
{
}

/// Whether a list of events reports nothing but success.
pub open spec fn all_well(events: Seq<StartEvent>) -> bool {
    forall|n: int|
        0 <= n < events.len() ==> {
            let e = #[trigger] events[n];
            e != StartEvent::Failed && e != StartEvent::Moved(false) && !(e is Alive
                && e->alive)
        }
}

/// A start in which nothing fails, the record is moved whenever it is to be, and the process of the
/// last run is gone, neither fails nor gives anything back.
pub proof fn starts_fail_only_for_a_reason(events: Seq<StartEvent>, mode: SpawnMode)
    requires
        all_well(events),
    ensures
        start_run(events, mode) != StartStep::Failed,
        start_run(events, mode) != StartStep::Unclaim,
        start_run(events, mode) != StartStep::Terminate,
    decreases events.len(),
{
    if events.len() > 0 {
        let before = events.drop_last();
        assert forall|n: int| 0 <= n < before.len() implies ({
            let e = #[trigger] before[n];
            e != StartEvent::Failed && e != StartEvent::Moved(false) && !(e is Alive && e->alive)
        }) by {
            assert(before[n] == events[n]);
        }
        starts_fail_only_for_a_reason(before, mode);
        assert(events[events.len() - 1] == events.last());
    }
}

/// A process of the last run that is still there is waited for, and only for so long. Each look is
/// at the same process, and one that outlives the wait fails the start.
pub proof fn the_last_run_is_waited_for(pid: i32, waited_ms: u64, mode: SpawnMode)
    ensures
        ({
            let look = StartStep::ObservePrevious { pid };
            let alive = StartEvent::Alive { alive: true, waited_ms };
            let next = start_next(look, alive, mode);
            &&& waited_ms < 5_000 ==> next == (StartStep::AwaitPrevious { pid }) && start_next(
                next,
                StartEvent::Done,
                mode,
            ) == look
            &&& waited_ms >= 5_000 ==> next == (StartStep::ConfirmPrevious { pid })
            &&& start_next(StartStep::ConfirmPrevious { pid }, alive, mode) == StartStep::Failed
        }),
{
}

/// A start that fails undoes what it did, and no more: before the record is claimed there is
/// nothing to undo, a boot that fails gives the claim back, a machine that runs without its record
/// or without a record of what runs is terminated, and what runs on its own is left running.
pub proof fn failed_starts_undo_what_they_did(step: StartStep, mode: SpawnMode)
    ensures
        ({
            let failed = start_next(step, StartEvent::Failed, mode);
            match step {
                StartStep::Boot => failed == StartStep::Unclaim,
                StartStep::RecordConfig => failed == StartStep::Terminate,
                StartStep::AwaitPrevious { .. } => failed == step,
                StartStep::Terminate => failed == step,
                StartStep::Started => failed == step,
                _ => failed == StartStep::Failed,
            }
        }),
        start_next(StartStep::Claim, StartEvent::Moved(false), mode) == StartStep::Failed,
        start_next(StartStep::Publish, StartEvent::Moved(false), mode) == StartStep::Terminate,
        start_next(StartStep::Unclaim, StartEvent::Done, mode) == StartStep::Failed,
        start_next(StartStep::Terminate, StartEvent::Done, mode) == StartStep::Failed,
{
}

/// A start goes by what its step asks for: other reports change nothing, and nothing follows its
/// end.
pub proof fn stray_reports_do_not_move_a_start(step: StartStep, event: StartEvent, mode: SpawnMode)
    requires
        match step {
            StartStep::FindPrevious => !(event is Previous) && event != StartEvent::Failed,
            StartStep::ObservePrevious { .. } => !(event is Alive) && event != StartEvent::Failed,
            StartStep::ConfirmPrevious { .. } => !(event is Alive) && event != StartEvent::Failed,
            StartStep::Claim => !(event is Moved) && event != StartEvent::Failed,
            StartStep::Publish => !(event is Moved) && event != StartEvent::Failed,
            StartStep::Started => true,
            StartStep::Failed => true,
            _ => event is Previous || event is Alive || event is Moved,
        },
    ensures
        start_next(step, event, mode) == step,
{
}

/// A stop of a sandbox that is at work asks the guest, once it is seen not to be paused, and then
/// records that it drains; a sandbox that is not at work has nothing to stop.
pub proof fn stops_get_there(status: SandboxStatus)
    ensures
        ({
            let active = status == SandboxStatus::Starting || status == SandboxStatus::Running
                || status == SandboxStatus::Draining;
            let awake = stop_next(stop_start(status), StopEvent::Pause(false));
            let asked = stop_next(awake, StopEvent::Done);
            &&& active ==> awake == (StopStep::RequestShutdown { status })
            &&& status == SandboxStatus::Running ==> asked == StopStep::MarkDraining && stop_next(
                asked,
                StopEvent::Done,
            ) == StopStep::Done
            &&& active && status != SandboxStatus::Running ==> asked == StopStep::Done
            &&& !active ==> stop_start(status) == StopStep::Done
        }),
{
}

/// A stop that cannot go on says so: a paused sandbox is refused and not asked, a request that is
/// not delivered or recorded fails, and nothing follows the end.
pub proof fn stops_that_cannot_go_on(step: StopStep, status: SandboxStatus, event: StopEvent)
    ensures
        stop_next(StopStep::ObservePause { status }, StopEvent::Pause(true)) == StopStep::Paused,
        stop_next(StopStep::RequestShutdown { status }, StopEvent::Failed) == StopStep::Failed,
        stop_next(StopStep::MarkDraining, StopEvent::Failed) == StopStep::Failed,
        step == StopStep::Done || step == StopStep::Paused || step == StopStep::Failed ==> stop_next(
            step,
            event,
        ) == step,
        step is ObservePause && !(event is Pause) ==> stop_next(step, event) == step,
        (step is RequestShutdown || step == StopStep::MarkDraining) && event is Pause ==> stop_next(
            step,
            event,
        ) == step,
{
}

/// A kill of a sandbox that is at work kills. The runtime that is alive gets the signal and is
/// waited for; once it has exited, its release is awaited where that can be watched, and the record
/// is marked as stopped. A runtime that is not found dead or unowned keeps its record.
pub proof fn kills_get_there(status: SandboxStatus, departing: bool, dead: bool)
    requires
        status == SandboxStatus::Starting || status == SandboxStatus::Running || status
            == SandboxStatus::Draining,
    ensures
        ({
            let judge = kill_next(kill_start(status), KillEvent::Watching(departing));
            let signal = kill_next(judge, KillEvent::Live(true));
            let await_exit = kill_next(signal, KillEvent::Done);
            let observe = kill_next(await_exit, KillEvent::Done);
            let after_kill = kill_next(observe, KillEvent::Exited(dead));
            let owner = kill_next(judge, KillEvent::Live(false));
            let after_look = kill_next(owner, KillEvent::Unowned(dead));
            let released = if departing {
                kill_next(after_kill, KillEvent::Done)
            } else {
                after_kill
            };
            &&& kill_start(status) == KillStep::WatchExit
            &&& judge == (KillStep::Judge { departing })
            &&& signal == (KillStep::Signal { departing })
            &&& await_exit == (KillStep::AwaitExit { departing })
            &&& observe == (KillStep::ObserveExit { departing })
            &&& owner == (KillStep::ObserveOwner { departing })
            &&& after_look == after_kill
            &&& departing ==> after_kill == (KillStep::AwaitRelease { dead })
            &&& dead ==> released == KillStep::MarkStopped && kill_next(released, KillEvent::Done)
                == KillStep::Done && kill_next(released, KillEvent::Failed) == KillStep::Done
            &&& !dead ==> released == KillStep::Done
        }),
{
}

/// A kill that cannot go on says so, a sandbox that is not at work has nothing to kill, and nothing
/// follows the end.
pub proof fn kills_that_cannot_go_on(
    step: KillStep,
    event: KillEvent,
    status: SandboxStatus,
    departing: bool,
    dead: bool,
)
    ensures
        !(status == SandboxStatus::Starting || status == SandboxStatus::Running || status
            == SandboxStatus::Draining) ==> kill_start(status) == KillStep::Done,
        kill_next(KillStep::WatchExit, KillEvent::Failed) == KillStep::Failed,
        kill_next(KillStep::Signal { departing }, KillEvent::Failed) == KillStep::Failed,
        kill_next(KillStep::ObserveOwner { departing }, KillEvent::Failed) == KillStep::Failed,
        kill_next(KillStep::AwaitRelease { dead }, KillEvent::Failed) == KillStep::Failed,
        kill_next(KillStep::AwaitRelease { dead }, KillEvent::TimedOut) == KillStep::Unreleased,
        step == KillStep::Done || step == KillStep::Unreleased || step == KillStep::Failed
            ==> kill_next(step, event) == step,
        step is Judge && !(event is Live) ==> kill_next(step, event) == step,
        step is ObserveExit && !(event is Exited) ==> kill_next(step, event) == step,
        step is AwaitExit && event != KillEvent::Done ==> kill_next(step, event) == step,
        step == KillStep::WatchExit && !(event is Watching) && event != KillEvent::Failed
            ==> kill_next(step, event) == step,
        step is Signal && event != KillEvent::Done && event != KillEvent::Failed ==> kill_next(
            step,
            event,
        ) == step,
        step is ObserveOwner && !(event is Unowned) && event != KillEvent::Failed ==> kill_next(
            step,
            event,
        ) == step,
        step is AwaitRelease && event != KillEvent::Done && event != KillEvent::Failed && event
            != KillEvent::TimedOut ==> kill_next(step, event) == step,
        step == KillStep::MarkStopped && event != KillEvent::Done && event != KillEvent::Failed
            ==> kill_next(step, event) == step,
{
}

/// The step that a list of events leads a drain to.
pub open spec fn drain_run(status: SandboxStatus, events: Seq<DrainEvent>) -> DrainStep
    decreases events.len(),
{
    if events.len() == 0 {
        drain_start(status)
    } else {
        drain_next(drain_run(status, events.drop_last()), events.last())
    }
}

/// Whether a drain came to ask the runtime.
pub open spec fn drain_asked(status: SandboxStatus, events: Seq<DrainEvent>) -> bool {
    exists|n: int|
        0 <= n <= events.len() && #[trigger] drain_run(status, events.take(n)) == DrainStep::Ask
}

/// Whether the judgement on the recorded runtime of a drain was that it is alive.
pub open spec fn drain_saw_life(status: SandboxStatus, events: Seq<DrainEvent>) -> bool {
    exists|n: int|
        0 <= n < events.len() && #[trigger] drain_run(status, events.take(n)) == DrainStep::Judge
            && events[n] == DrainEvent::Live(true)
}

/// A live runtime is asked: whatever a drain reports, it is over only once a runtime that was seen
/// alive came to be asked, or the drain failed.
pub proof fn live_runtimes_are_asked_to_drain(status: SandboxStatus, events: Seq<DrainEvent>)
    requires
        drain_saw_life(status, events),
    ensures
        drain_asked(status, events),
{
    let n = choose|n: int|
        0 <= n < events.len() && #[trigger] drain_run(status, events.take(n)) == DrainStep::Judge
            && events[n] == DrainEvent::Live(true);
    let longer = events.take(n + 1);
    assert(longer.drop_last() =~= events.take(n));
    assert(longer.last() == events[n]);
    assert(drain_run(status, longer) == DrainStep::Ask);
}

/// A drain gets there: a running sandbox is first recorded as draining, the recorded runtime is
/// judged, a live one is asked, and then the drain is over; a dead one needs no asking. A sandbox
/// that neither runs nor drains has nothing to drain.
pub proof fn drains_get_there(status: SandboxStatus)
    ensures
        drain_start(status) == match status {
            SandboxStatus::Running => DrainStep::MarkDraining,
            SandboxStatus::Draining => DrainStep::Judge,
            _ => DrainStep::Done,
        },
        drain_next(DrainStep::MarkDraining, DrainEvent::Done) == DrainStep::Judge,
        drain_next(DrainStep::Judge, DrainEvent::Live(true)) == DrainStep::Ask,
        drain_next(DrainStep::Judge, DrainEvent::Live(false)) == DrainStep::Done,
        drain_next(DrainStep::Ask, DrainEvent::Done) == DrainStep::Done,
{
}

/// A step of a drain that fails fails the drain, and nothing follows the end.
pub proof fn drains_that_cannot_go_on(step: DrainStep, event: DrainEvent)
    ensures
        step == DrainStep::MarkDraining || step == DrainStep::Judge || step == DrainStep::Ask
            ==> drain_next(step, DrainEvent::Failed) == DrainStep::Failed,
        step == DrainStep::Done || step == DrainStep::Failed ==> drain_next(step, event) == step,
        step == DrainStep::Judge && event == DrainEvent::Done ==> drain_next(step, event) == step,
        (step == DrainStep::MarkDraining || step == DrainStep::Ask) && event is Live ==> drain_next(
            step,
            event,
        ) == step,
{
}

/// A request to shut down gets there: the agent is connected to, that of the owner where one is
/// recorded and lives, the name is seen to still stand for the sandbox, and the request is sent.
/// An owner that has exited is reported as gone.
pub proof fn requests_get_there(owned: bool)
    ensures
        shutdown_start(true) == ShutdownStep::FindOwner,
        shutdown_start(false) == (ShutdownStep::Connect { owned: false }),
        shutdown_next(ShutdownStep::FindOwner, ShutdownEvent::NoOwner) == (ShutdownStep::Connect {
            owned: false,
        }),
        shutdown_next(ShutdownStep::FindOwner, ShutdownEvent::Owner { alive: true }) == (
        ShutdownStep::Connect { owned: true }),
        shutdown_next(ShutdownStep::FindOwner, ShutdownEvent::Owner { alive: false })
            == ShutdownStep::OwnerGone,
        shutdown_next(ShutdownStep::Connect { owned }, ShutdownEvent::Done)
            == ShutdownStep::CheckIdentity,
        shutdown_next(ShutdownStep::CheckIdentity, ShutdownEvent::Done) == ShutdownStep::Send,
        shutdown_next(ShutdownStep::Send, ShutdownEvent::Done) == ShutdownStep::Sent,
{
}

/// A step of a request that fails fails the request, and nothing follows the end.
pub proof fn requests_that_cannot_go_on(step: ShutdownStep, event: ShutdownEvent)
    ensures
        ({
            let over = step == ShutdownStep::Sent || step == ShutdownStep::OwnerGone || step
                == ShutdownStep::Failed;
            &&& over ==> shutdown_next(step, event) == step
            &&& !over ==> shutdown_next(step, ShutdownEvent::Failed) == ShutdownStep::Failed
            &&& step == ShutdownStep::FindOwner && event == ShutdownEvent::Done ==> shutdown_next(
                step,
                event,
            ) == step
            &&& !over && step != ShutdownStep::FindOwner && (event == ShutdownEvent::NoOwner
                || event is Owner) ==> shutdown_next(step, event) == step
        }),
{
}

/// A start is refused exactly where the record is another sandbox, or is not at rest: created,
/// stopped and crashed sandboxes start, and no others. A sandbox that is at work is said to run.
pub proof fn only_sandboxes_at_rest_start(
    name: Seq<char>,
    expected_id: Option<i32>,
    id: i32,
    status: SandboxStatus,
)
    ensures
        start_refusal(name, expected_id, id, status) is None <==> (expected_id is None
            || expected_id == Some(id)) && (status == SandboxStatus::Created || status
            == SandboxStatus::Stopped || status == SandboxStatus::Crashed),
        expected_id is Some && expected_id != Some(id) ==> start_refusal(
            name,
            expected_id,
            id,
            status,
        )->0 is SandboxReplaced,
        (expected_id is None || expected_id == Some(id)) && (status == SandboxStatus::Running
            || status == SandboxStatus::Draining) ==> start_refusal(
            name,
            expected_id,
            id,
            status,
        )->0 is SandboxStillRunning,
        restart_refusal(name, id, id, status) is None <==> status == SandboxStatus::Created
            || status == SandboxStatus::Stopped || status == SandboxStatus::Crashed,
        forall|other: i32| other != id ==> (#[trigger] restart_refusal(name, id, other, status))
            is Some && restart_refusal(name, id, other, status)->0 is SandboxReplaced,
        restart_refusal(name, id, id, status) is Some ==> restart_refusal(name, id, id, status)->0
            is SandboxStillRunning,
{
}

/// A start that is refused is refused with the reason: a runtime that is there, a state that starts
/// nothing, or what the sandbox changed to meanwhile.
pub proof fn refused_starts_say_why(
    name: Seq<char>,
    id: i32,
    other: i32,
    status: SandboxStatus,
)
    ensures
        start_refusal(name, Some(id), id, SandboxStatus::Running) == Some(
            ErrorView::SandboxStillRunning(
                "cannot start sandbox '"@ + name + "': already running"@,
            ),
        ),
        start_refusal(name, Some(id), id, SandboxStatus::Draining) == Some(
            ErrorView::SandboxStillRunning(
                "cannot start sandbox '"@ + name + "': already running"@,
            ),
        ),
        start_refusal(name, Some(id), id, SandboxStatus::Paused) == Some(
            ErrorView::Custom(
                "cannot start sandbox '"@ + name + "': status is "@ + SandboxStatus::Paused.text()
                    + " (expected Created, Stopped, or Crashed)"@,
            ),
        ),
        restart_refusal(name, id, id, status) is Some ==> restart_refusal(name, id, id, status)
            == Some(
            ErrorView::SandboxStillRunning(
                "cannot start sandbox "@ + quoted_text(name) + ": status changed to "@
                    + status.text(),
            ),
        ),
        claim_failure(name, id, id, status) == ErrorView::SandboxStillRunning(
            "cannot start sandbox "@ + quoted_text(name)
                + ": another lifecycle transition changed status to "@ + status.text(),
        ),
        other != id ==> claim_failure(name, id, other, status) == (ErrorView::SandboxReplaced {
            name,
            expected: "local:"@ + signed_decimal(id as int),
            actual: "local:"@ + signed_decimal(other as int),
        }),
{
}

/// A runtime that is to exit is looked at twenty times a second, and waited for no longer than five
/// seconds.
pub proof fn exits_are_awaited_in_steps()
    ensures
        EXIT_POLL_MS * 20 == 1_000,
        WAIT_LIMIT_MS == 5_000,
        WAIT_LIMIT_MS == 100 * EXIT_POLL_MS,
{
}

} // verus!
