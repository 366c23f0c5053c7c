//! Making way for a new sandbox: the name is free, or what holds it is stopped and removed.

use vstd::prelude::*;

use crate::error::{ErrorView, MicrosandboxError, MicrosandboxResult, failure};
use crate::host::{IoError, IoErrorKind};
use crate::outside::{quoted, quoted_text};
use crate::paths::{joined, path_join};
use crate::catalog::TerminationReason;
use crate::types::SandboxStatus;

verus! {

/// The refusal of a name that is taken.
pub open spec fn taken(name: Seq<char>) -> ErrorView {
    ErrorView::SandboxAlreadyExists(
        "sandbox '"@ + name
            + "' already exists; remove it, start the stopped sandbox, or recreate with .replace()"@,
    )
}

/// Refuses a name that a record or a directory holds already.
pub fn check_create_target(name: &str, recorded: bool, dir_exists: bool) -> (r: MicrosandboxResult<
    (),
>)
    ensures
        failure(r) == if recorded || dir_exists {
            Some(taken(name@))
        } else {
            None
        },
{
    if recorded || dir_exists {
        let mut message = "sandbox '".to_owned();
        message.append(name);
        message.append(
            "' already exists; remove it, start the stopped sandbox, or recreate with .replace()",
        );
        return Err(MicrosandboxError::SandboxAlreadyExists(message));
    }
    Ok(())
}

/// The refusal of a directory outside of every storage root.
pub fn rootless_error(sandbox_dir: &str) -> (r: MicrosandboxError)
    ensures
        r@ == ErrorView::InvalidConfig("sandbox directory has no storage root: "@ + sandbox_dir@),
{
    let mut message = "sandbox directory has no storage root: ".to_owned();
    message.append(sandbox_dir);
    MicrosandboxError::InvalidConfig(message)
}

/// Why a sandbox cannot be replaced.
#[derive(Clone, Copy, Debug, PartialEq, Eq, Structural)]
pub enum Obstacle {
    /// The recorded process lives.
    RecordedRuntime,
    /// Something answers under the name, though there is no record.
    UntrackedEndpoint,
    /// The process was killed and lives on.
    SurvivedKill,
    /// A process that the record does not identify holds the name.
    UnidentifiedOwner,
}

/// An obstacle in words.
pub open spec fn obstacle_text(obstacle: Obstacle) -> Seq<char> {
    match obstacle {
        Obstacle::RecordedRuntime => ": its recorded runtime process is still alive"@,
        Obstacle::UntrackedEndpoint => ": an untracked runtime endpoint is still live"@,
        Obstacle::SurvivedKill => ": runtime did not exit after SIGKILL"@,
        Obstacle::UnidentifiedOwner => {
            ": its lifecycle lock is held by a runtime the recorded run does not identify"@
        },
    }
}

/// The refusal to replace a sandbox.
pub fn obstacle_error(name: &str, obstacle: Obstacle) -> (r: MicrosandboxError)
    ensures
        r@ == ErrorView::SandboxStillRunning(
            "cannot replace sandbox "@ + quoted_text(name@) + obstacle_text(obstacle),
        ),
{
    let mut message = "cannot replace sandbox ".to_owned();
    message.append(quoted(name).as_str());
    message.append(
        match obstacle {
            Obstacle::RecordedRuntime => ": its recorded runtime process is still alive",
            Obstacle::UntrackedEndpoint => ": an untracked runtime endpoint is still live",
            Obstacle::SurvivedKill => ": runtime did not exit after SIGKILL",
            Obstacle::UnidentifiedOwner => {
                ": its lifecycle lock is held by a runtime the recorded run does not identify"
            },
        },
    );
    MicrosandboxError::SandboxStillRunning(message)
}

// ------------------------------------------------------------------------------------------------
// The way to a free name
// ------------------------------------------------------------------------------------------------

/// What comes next on the way to a free name.
#[derive(Clone, Copy, Debug, PartialEq, Eq, Structural)]
pub enum TargetStep {
    /// See whether a record or a directory holds the name.
    CheckTarget,
    /// Look for the record of the sandbox to replace.
    FindRecord,
    /// Bring that record up to date.
    Reconcile,
    /// Stop the sandbox.
    StopOld,
    /// Lock the sandbox against being captured.
    LockLineage { recorded: bool },
    /// Lock the name against runtimes.
    TakeLifecycle { recorded: bool },
    /// See whether the recorded process lives.
    JudgeRuntime,
    /// See whether anything answers under the name.
    ProbeEndpoint,
    /// Remove the sockets of the sandbox.
    RemoveSockets { recorded: bool },
    /// Remove the directory of the sandbox.
    RemoveStorage { recorded: bool },
    /// Remove the record of the sandbox.
    DeleteRecord,
    /// The name is free.
    Ready,
    /// The name is taken.
    Taken,
    /// Something under the name lives.
    StillAlive(Obstacle),
    /// A step failed.
    Failed,
}

/// What happened on the way to a free name.
#[derive(Clone, Copy, Debug, PartialEq, Eq, Structural)]
pub enum TargetEvent {
    Done,
    Failed,
    /// Whether there is something.
    Found(bool),
    /// What the record says once it is up to date.
    Status(SandboxStatus),
    /// Whether something lives.
    Live(bool),
}

/// Whether a replaced sandbox has to be stopped first.
pub open spec fn must_stop(status: SandboxStatus) -> bool {
    status == SandboxStatus::Running || status == SandboxStatus::Draining || status
        == SandboxStatus::Paused
}

/// The first step.
pub open spec fn target_start(replace: bool) -> TargetStep {
    if replace {
        TargetStep::FindRecord
    } else {
        TargetStep::CheckTarget
    }
}

/// Whether a step is the last one.
pub open spec fn target_settled(step: TargetStep) -> bool {
    step == TargetStep::Ready || step == TargetStep::Taken || step is StillAlive || step
        == TargetStep::Failed
}

/// The step after an event. An event that the step does not expect changes nothing.
pub open spec fn target_next(step: TargetStep, event: TargetEvent) -> TargetStep {
    match (step, event) {
        (_, TargetEvent::Failed) => if target_settled(step) {
            step
        } else {
            TargetStep::Failed
        },
        (TargetStep::CheckTarget, TargetEvent::Found(found)) => if found {
            TargetStep::Taken
        } else {
            TargetStep::Ready
        },
        (TargetStep::FindRecord, TargetEvent::Found(found)) => if found {
            TargetStep::Reconcile
        } else {
            TargetStep::LockLineage { recorded: false }
        },
        (TargetStep::Reconcile, TargetEvent::Status(status)) => if must_stop(status) {
            TargetStep::StopOld
        } else {
            TargetStep::LockLineage { recorded: true }
        },
        (TargetStep::StopOld, TargetEvent::Done) => TargetStep::LockLineage { recorded: true },
        (TargetStep::LockLineage { recorded }, TargetEvent::Done) => TargetStep::TakeLifecycle {
            recorded,
        },
        (TargetStep::TakeLifecycle { recorded }, TargetEvent::Done) => if recorded {
            TargetStep::JudgeRuntime
        } else {
            TargetStep::ProbeEndpoint
        },
        (TargetStep::JudgeRuntime, TargetEvent::Live(live)) => if live {
            TargetStep::StillAlive(Obstacle::RecordedRuntime)
        } else {
            TargetStep::RemoveSockets { recorded: true }
        },
        (TargetStep::ProbeEndpoint, TargetEvent::Live(live)) => if live {
            TargetStep::StillAlive(Obstacle::UntrackedEndpoint)
        } else {
            TargetStep::RemoveSockets { recorded: false }
        },
        (TargetStep::RemoveSockets { recorded }, TargetEvent::Done) => TargetStep::RemoveStorage {
            recorded,
        },
        (TargetStep::RemoveStorage { recorded }, TargetEvent::Done) => if recorded {
            TargetStep::DeleteRecord
        } else {
            TargetStep::Ready
        },
        (TargetStep::DeleteRecord, TargetEvent::Done) => TargetStep::Ready,
        _ => step,
    }
}

impl TargetStep {
    /// The first step towards a free name, with or without leave to replace what holds it.
    pub fn start(replace: bool) -> (r: TargetStep)
        ensures
            r == target_start(replace),
    {
        if replace {
            TargetStep::FindRecord
        } else {
            TargetStep::CheckTarget
        }
    }

    /// Takes an event into account.
    pub fn advance(self, event: TargetEvent) -> (r: TargetStep)
        ensures
            r == target_next(self, event),
    {
        match (self, event) {
            (TargetStep::Ready, TargetEvent::Failed) => self,
            (TargetStep::Taken, TargetEvent::Failed) => self,
            (TargetStep::StillAlive(_), TargetEvent::Failed) => self,
            (_, TargetEvent::Failed) => TargetStep::Failed,
            (TargetStep::CheckTarget, TargetEvent::Found(found)) => {
                if found {
                    TargetStep::Taken
                } else {
                    TargetStep::Ready
                }
            },
            (TargetStep::FindRecord, TargetEvent::Found(found)) => {
                if found {
                    TargetStep::Reconcile
                } else {
                    TargetStep::LockLineage { recorded: false }
                }
            },
            (TargetStep::Reconcile, TargetEvent::Status(status)) => {
                match status {
                    SandboxStatus::Running | SandboxStatus::Draining | SandboxStatus::Paused => {
                        TargetStep::StopOld
                    },
                    _ => TargetStep::LockLineage { recorded: true },
                }
            },
            (TargetStep::StopOld, TargetEvent::Done) => TargetStep::LockLineage { recorded: true },
            (TargetStep::LockLineage { recorded }, TargetEvent::Done) => {
                TargetStep::TakeLifecycle { recorded }
            },
            (TargetStep::TakeLifecycle { recorded }, TargetEvent::Done) => {
                if recorded {
                    TargetStep::JudgeRuntime
                } else {
                    TargetStep::ProbeEndpoint
                }
            },
            (TargetStep::JudgeRuntime, TargetEvent::Live(live)) => {
                if live {
                    TargetStep::StillAlive(Obstacle::RecordedRuntime)
                } else {
                    TargetStep::RemoveSockets { recorded: true }
                }
            },
            (TargetStep::ProbeEndpoint, TargetEvent::Live(live)) => {
                if live {
                    TargetStep::StillAlive(Obstacle::UntrackedEndpoint)
                } else {
                    TargetStep::RemoveSockets { recorded: false }
                }
            },
            (TargetStep::RemoveSockets { recorded }, TargetEvent::Done) => {
                TargetStep::RemoveStorage { recorded }
            },
            (TargetStep::RemoveStorage { recorded }, TargetEvent::Done) => {
                if recorded {
                    TargetStep::DeleteRecord
                } else {
                    TargetStep::Ready
                }
            },
            (TargetStep::DeleteRecord, TargetEvent::Done) => TargetStep::Ready,
            _ => self,
        }
    }
}

/// The step that a list of events leads to.
pub open spec fn target_run(replace: bool, events: Seq<TargetEvent>) -> TargetStep
    decreases events.len(),
{
    if events.len() == 0 {
        target_start(replace)
    } else {
        target_next(target_run(replace, events.drop_last()), events.last())
    }
}

/// Whether the lock of the name was taken on the way.
pub open spec fn target_locked(replace: bool, events: Seq<TargetEvent>) -> bool
    decreases events.len(),
{
    events.len() > 0 && (target_locked(replace, events.drop_last()) || (target_run(
        replace,
        events.drop_last(),
    ) is TakeLifecycle && events.last() == TargetEvent::Done))
}

/// Whether a step removes something.
pub open spec fn removes(step: TargetStep) -> bool {
    step is RemoveSockets || step is RemoveStorage || step == TargetStep::DeleteRecord
}

/// Nothing is removed before the name is locked and nothing under it was seen to live.
pub proof fn only_the_dead_are_removed(replace: bool, events: Seq<TargetEvent>)
    requires
        removes(target_run(replace, events)),
    ensures
        replace,
        target_locked(replace, events),
        events.contains(TargetEvent::Live(false)),
{
    lemma_removal(replace, events);
}

proof fn lemma_removal(replace: bool, events: Seq<TargetEvent>)
    ensures
        ({
            let step = target_run(replace, events);
            &&& step == TargetStep::JudgeRuntime || step == TargetStep::ProbeEndpoint || removes(
                step,
            ) ==> target_locked(replace, events)
            &&& removes(step) ==> events.contains(TargetEvent::Live(false))
            &&& !replace ==> step == TargetStep::CheckTarget || step == TargetStep::Ready || step
                == TargetStep::Taken || step == TargetStep::Failed
        }),
    decreases events.len(),
{
    if events.len() > 0 {
        let before = events.drop_last();
        lemma_removal(replace, before);
        assert(events[events.len() - 1] == events.last());
        assert(before.contains(TargetEvent::Live(false)) ==> events.contains(
            TargetEvent::Live(false),
        )) by {
            if before.contains(TargetEvent::Live(false)) {
                let i = choose|i: int|
                    0 <= i < before.len() && before[i] == TargetEvent::Live(false);
                assert(events[i] == TargetEvent::Live(false));
            }
        }
    }
}

/// Without leave to replace, nothing is stopped, locked or removed: the name is free, taken, or
/// could not be checked.
pub proof fn without_leave_nothing_is_touched(events: Seq<TargetEvent>)
    ensures
        ({
            let step = target_run(false, events);
            step == TargetStep::CheckTarget || step == TargetStep::Ready || step
                == TargetStep::Taken || step == TargetStep::Failed
        }),
{
    lemma_removal(false, events);
}

// ------------------------------------------------------------------------------------------------
// Stopping the old sandbox
// ------------------------------------------------------------------------------------------------

/// What comes next in stopping a sandbox that is to be replaced.
#[derive(Clone, Copy, Debug, PartialEq, Eq, Structural)]
pub enum StopOldStep {
    /// See which process the record identifies.
    Identify,
    /// Ask it to terminate.
    Terminate,
    /// Give it time to do so.
    AwaitGrace,
    /// Kill it.
    Kill,
    /// Wait until it is gone.
    AwaitExit,
    /// See whether it is gone.
    ObserveExit,
    /// See whether a runtime holds the name.
    ObserveOwner,
    /// Mark the record and its run as stopped.
    MarkStopped,
    /// The sandbox is stopped.
    Stopped,
    /// It is not.
    StillAlive(Obstacle),
    /// A step failed.
    Failed,
}

/// What happened in stopping a sandbox.
#[derive(Clone, Copy, Debug, PartialEq, Eq, Structural)]
pub enum StopOldEvent {
    Done,
    Failed,
    /// Whether the record identifies a live process.
    Identified(bool),
    /// Whether the process has exited.
    Exited(bool),
    /// Whether a runtime holds the name.
    Owned(bool),
}

/// The step after an event, with `grace` where the process gets time to terminate by itself.
pub open spec fn stop_old_next(step: StopOldStep, event: StopOldEvent, grace: bool) -> StopOldStep {
    match (step, event) {
        (StopOldStep::Identify, StopOldEvent::Identified(true)) => if grace {
            StopOldStep::Terminate
        } else {
            StopOldStep::Kill
        },
        (StopOldStep::Identify, StopOldEvent::Identified(false)) => StopOldStep::ObserveOwner,
        (StopOldStep::Identify, StopOldEvent::Failed) => StopOldStep::Failed,
        (StopOldStep::Terminate, StopOldEvent::Done) => StopOldStep::AwaitGrace,
        (StopOldStep::Terminate, StopOldEvent::Failed) => StopOldStep::AwaitGrace,
        (StopOldStep::AwaitGrace, StopOldEvent::Done) => StopOldStep::Kill,
        (StopOldStep::Kill, StopOldEvent::Done) => StopOldStep::AwaitExit,
        (StopOldStep::Kill, StopOldEvent::Failed) => StopOldStep::Failed,
        (StopOldStep::AwaitExit, StopOldEvent::Done) => StopOldStep::ObserveExit,
        (StopOldStep::ObserveExit, StopOldEvent::Exited(true)) => StopOldStep::MarkStopped,
        (StopOldStep::ObserveExit, StopOldEvent::Exited(false)) => StopOldStep::StillAlive(
            Obstacle::SurvivedKill,
        ),
        (StopOldStep::ObserveOwner, StopOldEvent::Owned(true)) => StopOldStep::StillAlive(
            Obstacle::UnidentifiedOwner,
        ),
        (StopOldStep::ObserveOwner, StopOldEvent::Owned(false)) => StopOldStep::MarkStopped,
        (StopOldStep::ObserveOwner, StopOldEvent::Failed) => StopOldStep::Failed,
        (StopOldStep::MarkStopped, StopOldEvent::Done) => StopOldStep::Stopped,
        (StopOldStep::MarkStopped, StopOldEvent::Failed) => StopOldStep::Failed,
        _ => step,
    }
}

impl StopOldStep {
    /// Takes an event into account. The process gets `grace_ms` to terminate by itself.
    pub fn advance(self, event: StopOldEvent, grace_ms: u64) -> (r: StopOldStep)
        ensures
            r == stop_old_next(self, event, grace_ms > 0),
    {
        match (self, event) {
            (StopOldStep::Identify, StopOldEvent::Identified(true)) => {
                if grace_ms > 0 {
                    StopOldStep::Terminate
                } else {
                    StopOldStep::Kill
                }
            },
            (StopOldStep::Identify, StopOldEvent::Identified(false)) => StopOldStep::ObserveOwner,
            (StopOldStep::Identify, StopOldEvent::Failed) => StopOldStep::Failed,
            (StopOldStep::Terminate, StopOldEvent::Done) => StopOldStep::AwaitGrace,
            (StopOldStep::Terminate, StopOldEvent::Failed) => StopOldStep::AwaitGrace,
            (StopOldStep::AwaitGrace, StopOldEvent::Done) => StopOldStep::Kill,
            (StopOldStep::Kill, StopOldEvent::Done) => StopOldStep::AwaitExit,
            (StopOldStep::Kill, StopOldEvent::Failed) => StopOldStep::Failed,
            (StopOldStep::AwaitExit, StopOldEvent::Done) => StopOldStep::ObserveExit,
            (StopOldStep::ObserveExit, StopOldEvent::Exited(true)) => StopOldStep::MarkStopped,
            (StopOldStep::ObserveExit, StopOldEvent::Exited(false)) => {
                StopOldStep::StillAlive(Obstacle::SurvivedKill)
            },
            (StopOldStep::ObserveOwner, StopOldEvent::Owned(true)) => {
                StopOldStep::StillAlive(Obstacle::UnidentifiedOwner)
            },
            (StopOldStep::ObserveOwner, StopOldEvent::Owned(false)) => StopOldStep::MarkStopped,
            (StopOldStep::ObserveOwner, StopOldEvent::Failed) => StopOldStep::Failed,
            (StopOldStep::MarkStopped, StopOldEvent::Done) => StopOldStep::Stopped,
            (StopOldStep::MarkStopped, StopOldEvent::Failed) => StopOldStep::Failed,
            _ => self,
        }
    }
}

/// The step that a list of events leads to.
pub open spec fn stop_old_run(events: Seq<StopOldEvent>, grace: bool) -> StopOldStep
    decreases events.len(),
{
    if events.len() == 0 {
        StopOldStep::Identify
    } else {
        stop_old_next(stop_old_run(events.drop_last(), grace), events.last(), grace)
    }
}

/// A sandbox is marked as stopped only once its process was seen to be gone, or where the record
/// identifies none and no runtime holds the name. Only an identified process is signalled, and
/// without time to terminate it is killed right away.
pub proof fn only_the_gone_are_marked(events: Seq<StopOldEvent>, grace: bool)
    ensures
        ({
            let step = stop_old_run(events, grace);
            &&& step == StopOldStep::MarkStopped || step == StopOldStep::Stopped
                ==> events.contains(StopOldEvent::Exited(true)) || (events.contains(
                StopOldEvent::Identified(false),
            ) && events.contains(StopOldEvent::Owned(false)))
            &&& step == StopOldStep::Terminate || step == StopOldStep::Kill ==> events.contains(
                StopOldEvent::Identified(true),
            )
            &&& step == StopOldStep::Terminate || step == StopOldStep::AwaitGrace ==> grace
        }),
{
    lemma_stop_old(events, grace);
}

proof fn lemma_stop_old(events: Seq<StopOldEvent>, grace: bool)
    ensures
        ({
            let step = stop_old_run(events, grace);
            &&& step == StopOldStep::MarkStopped || step == StopOldStep::Stopped
                ==> events.contains(StopOldEvent::Exited(true)) || (events.contains(
                StopOldEvent::Identified(false),
            ) && events.contains(StopOldEvent::Owned(false)))
            &&& step == StopOldStep::Terminate || step == StopOldStep::Kill || step
                == StopOldStep::AwaitGrace ==> events.contains(StopOldEvent::Identified(true))
            &&& step == StopOldStep::ObserveOwner ==> events.contains(
                StopOldEvent::Identified(false),
            )
            &&& step == StopOldStep::Terminate || step == StopOldStep::AwaitGrace ==> grace
        }),
    decreases events.len(),
{
    if events.len() > 0 {
        let before = events.drop_last();
        lemma_stop_old(before, grace);
        assert(events[events.len() - 1] == events.last());
        assert(events.contains(events.last()));
        assert forall|e: StopOldEvent| before.contains(e) implies events.contains(e) by {
            let i = choose|i: int| 0 <= i < before.len() && before[i] == e;
            assert(events[i] == e);
        }
    }
}

// ------------------------------------------------------------------------------------------------
// Rolling a failed startup back
// ------------------------------------------------------------------------------------------------

/// What comes next in rolling a failed startup back.
#[derive(Clone, Copy, Debug, PartialEq, Eq, Structural)]
pub enum RollbackStep {
    /// Try to lock the name against runtimes.
    TakeLifecycle,
    /// Mark the runs of the sandbox as failed.
    FailRuns,
    /// Mark the record as stopped.
    StopRecord,
    /// Remove the volumes that were created for the sandbox.
    RemoveVolumes,
    /// Remove the record.
    DeleteRecord,
    /// Everything is rolled back.
    RolledBack,
    /// A runtime still holds the name.
    Pending,
    /// A step failed.
    Failed,
}

/// What happened in rolling back.
#[derive(Clone, Copy, Debug, PartialEq, Eq, Structural)]
pub enum RollbackEvent {
    Done,
    Failed,
    /// Whether the name could be locked.
    Locked(bool),
}

/// The step after an event, given whether volumes were created.
pub open spec fn rollback_next(
    step: RollbackStep,
    event: RollbackEvent,
    has_volumes: bool,
) -> RollbackStep {
    match (step, event) {
        (RollbackStep::TakeLifecycle, RollbackEvent::Locked(true)) => RollbackStep::FailRuns,
        (RollbackStep::TakeLifecycle, RollbackEvent::Locked(false)) => RollbackStep::Pending,
        (RollbackStep::TakeLifecycle, RollbackEvent::Failed) => RollbackStep::Failed,
        (RollbackStep::FailRuns, RollbackEvent::Done) => if has_volumes {
            RollbackStep::RemoveVolumes
        } else {
            RollbackStep::StopRecord
        },
        (RollbackStep::FailRuns, RollbackEvent::Failed) => RollbackStep::Failed,
        (RollbackStep::StopRecord, _) => RollbackStep::RolledBack,
        (RollbackStep::RemoveVolumes, _) => RollbackStep::DeleteRecord,
        (RollbackStep::DeleteRecord, _) => RollbackStep::RolledBack,
        _ => step,
    }
}

impl RollbackStep {
    /// Takes an event into account.
    pub fn advance(self, event: RollbackEvent, has_volumes: bool) -> (r: RollbackStep)
        ensures
            r == rollback_next(self, event, has_volumes),
    {
        match (self, event) {
            (RollbackStep::TakeLifecycle, RollbackEvent::Locked(true)) => RollbackStep::FailRuns,
            (RollbackStep::TakeLifecycle, RollbackEvent::Locked(false)) => RollbackStep::Pending,
            (RollbackStep::TakeLifecycle, RollbackEvent::Failed) => RollbackStep::Failed,
            (RollbackStep::FailRuns, RollbackEvent::Done) => {
                if has_volumes {
                    RollbackStep::RemoveVolumes
                } else {
                    RollbackStep::StopRecord
                }
            },
            (RollbackStep::FailRuns, RollbackEvent::Failed) => RollbackStep::Failed,
            (RollbackStep::StopRecord, _) => RollbackStep::RolledBack,
            (RollbackStep::RemoveVolumes, _) => RollbackStep::DeleteRecord,
            (RollbackStep::DeleteRecord, _) => RollbackStep::RolledBack,
            _ => self,
        }
    }
}

/// The step that a list of events leads to.
pub open spec fn rollback_run(events: Seq<RollbackEvent>, has_volumes: bool) -> RollbackStep
    decreases events.len(),
{
    if events.len() == 0 {
        RollbackStep::TakeLifecycle
    } else {
        rollback_next(rollback_run(events.drop_last(), has_volumes), events.last(), has_volumes)
    }
}

/// While a runtime holds the name, a rollback changes nothing: neither records nor volumes.
pub proof fn live_owners_keep_their_storage(events: Seq<RollbackEvent>, has_volumes: bool)
    requires
        !events.contains(RollbackEvent::Locked(true)),
    ensures
        ({
            let step = rollback_run(events, has_volumes);
            step == RollbackStep::TakeLifecycle || step == RollbackStep::Pending || step
                == RollbackStep::Failed
        }),
    decreases events.len(),
{
    if events.len() > 0 {
        let before = events.drop_last();
        assert forall|e: RollbackEvent| before.contains(e) implies events.contains(e) by {
            let i = choose|i: int| 0 <= i < before.len() && before[i] == e;
            assert(events[i] == e);
        }
        live_owners_keep_their_storage(before, has_volumes);
        assert(events[events.len() - 1] == events.last());
        assert(events.contains(events.last()));
    }
}

/// The failure of a rollback that a runtime holds up.
pub fn rollback_pending_error(sandbox_name: &str) -> (r: MicrosandboxError)
    ensures
        r@ == ErrorView::Runtime(
            "startup cleanup pending: runtime still owns sandbox "@ + quoted_text(sandbox_name@),
        ),
{
    let mut message = "startup cleanup pending: runtime still owns sandbox ".to_owned();
    message.append(quoted(sandbox_name).as_str());
    MicrosandboxError::Runtime(message)
}

/// One run of a sandbox.
#[derive(Clone, Copy, Debug, PartialEq, Eq, Structural)]
pub struct RunRow {
    pub id: i32,
    pub sandbox_id: i32,
    /// Why the run ended, once it has.
    pub ended: Option<TerminationReason>,
}

/// A run as a rollback leaves it: those of the sandbox that had not ended have failed.
pub open spec fn rolled_back(run: RunRow, sandbox_id: i32) -> RunRow {
    if run.sandbox_id == sandbox_id && run.ended is None {
        RunRow { ended: Some(TerminationReason::Failed), ..run }
    } else {
        run
    }
}

/// Marks the runs of a sandbox that have not ended as failed.
pub fn fail_runs(runs: &mut Vec<RunRow>, sandbox_id: i32)
    ensures
        final(runs)@ == old(runs)@.map_values(|run: RunRow| rolled_back(run, sandbox_id)),
{
    let ghost before = runs@;
    let mut i: usize = 0;
    while i < runs.len()
        invariant
            i <= runs@.len() == before.len(),
            forall|k: int| 0 <= k < i ==> runs@[k] == rolled_back(before[k], sandbox_id),
            forall|k: int| i <= k < before.len() ==> runs@[k] == before[k],
        decreases runs@.len() - i,
    {
        let run = runs[i];
        if run.sandbox_id == sandbox_id && run.ended.is_none() {
            runs.set(
                i,
                RunRow {
                    id: run.id,
                    sandbox_id: run.sandbox_id,
                    ended: Some(TerminationReason::Failed),
                },
            );
        }
        i = i + 1;
    }
    assert(runs@ =~= before.map_values(|run: RunRow| rolled_back(run, sandbox_id)));
}

/// The run as a replacement leaves it: it was ended by a signal.
pub fn signalled_run(run: RunRow) -> (r: RunRow)
    ensures
        r == (RunRow { ended: Some(TerminationReason::Signal), ..run }),
{
    RunRow { id: run.id, sandbox_id: run.sandbox_id, ended: Some(TerminationReason::Signal) }
}

// ------------------------------------------------------------------------------------------------
// Endpoints without a record
// ------------------------------------------------------------------------------------------------

/// The socket of a sandbox inside of its own directory.
pub open spec fn own_socket(sandbox_dir: Seq<char>) -> Seq<char> {
    joined(joined(sandbox_dir, "runtime"@), "agent.sock"@)
}

/// The sockets under which a runtime of a sandbox may answer.
pub struct SocketPaths {
    pub agent: String,
    pub control: String,
    pub legacy_agent: String,
    pub legacy_control: String,
}

/// The socket of a sandbox inside of its own directory.
pub fn own_agent_socket(sandbox_dir: &str) -> (r: String)
    ensures
        r@ == own_socket(sandbox_dir@),
{
    let runtime = path_join(sandbox_dir, "runtime");
    path_join(runtime.as_str(), "agent.sock")
}

/// Every socket under which a runtime may answer, in the order in which they are tried.
/// `own_control` is the control socket that goes with the socket in the sandbox's own directory.
pub fn runtime_endpoints(paths: SocketPaths, sandbox_dir: &str, own_control: String) -> (r: Vec<
    String,
>)
    ensures
        crate::text::views(r@) == seq![
            paths.agent@,
            paths.control@,
            paths.legacy_agent@,
            paths.legacy_control@,
            own_socket(sandbox_dir@),
            own_control@,
        ],
{
    let own = own_agent_socket(sandbox_dir);
    let r = vec![
        paths.agent,
        paths.control,
        paths.legacy_agent,
        paths.legacy_control,
        own,
        own_control,
    ];
    assert(crate::text::views(r@) =~= seq![
        paths.agent@,
        paths.control@,
        paths.legacy_agent@,
        paths.legacy_control@,
        own_socket(sandbox_dir@),
        own_control@,
    ]);
    r
}

/// What trying one socket showed.
#[derive(Clone, Copy, Debug, PartialEq, Eq, Structural)]
pub enum EndpointProbe {
    /// There is no such socket.
    Missing,
    /// Something answers.
    Connected,
    /// The connection failed.
    Failed(IoError),
}

/// Whether a probe says nothing.
pub open spec fn is_silent(probe: EndpointProbe) -> bool {
    match probe {
        EndpointProbe::Missing => true,
        EndpointProbe::Connected => false,
        EndpointProbe::Failed(error) => error.kind == IoErrorKind::ConnectionRefused || error.kind
            == IoErrorKind::NotFound,
    }
}

/// Whether something answers under a name: the first probe that says anything decides.
pub fn sandbox_runtime_endpoint_is_live(probes: &Vec<EndpointProbe>) -> (r: Result<bool, IoError>)
    ensures
        match r {
            Ok(false) => forall|i: int| 0 <= i < probes@.len() ==> is_silent(#[trigger] probes@[i]),
            Ok(true) => exists|i: int|
                0 <= i < probes@.len() && #[trigger] probes@[i] == EndpointProbe::Connected && (
                forall|k: int| 0 <= k < i ==> is_silent(#[trigger] probes@[k])),
            Err(error) => exists|i: int|
                0 <= i < probes@.len() && #[trigger] probes@[i] == EndpointProbe::Failed(error)
                    && !is_silent(probes@[i]) && (forall|k: int|
                    0 <= k < i ==> is_silent(#[trigger] probes@[k])),
        },
{
    let mut i: usize = 0;
    while i < probes.len()
        invariant
            i <= probes@.len(),
            forall|k: int| 0 <= k < i ==> is_silent(#[trigger] probes@[k]),
        decreases probes@.len() - i,
    {
        match probes[i] {
            EndpointProbe::Missing => {},
            EndpointProbe::Connected => {
                assert(probes@[i as int] == EndpointProbe::Connected);
                return Ok(true);
            },
            EndpointProbe::Failed(error) => {
                if error.kind != IoErrorKind::ConnectionRefused && error.kind
                    != IoErrorKind::NotFound {
                    assert(probes@[i as int] == EndpointProbe::Failed(error));
                    return Err(error);
                }
            },
        }
        i = i + 1;
    }
    Ok(false)
}

// ------------------------------------------------------------------------------------------------
// Turns
// ------------------------------------------------------------------------------------------------

/// Milliseconds between two attempts to get the turn of a name.
pub const TRANSITION_POLL_MS: u64 = 10;

/// What comes next in waiting for the turn to change what a name stands for.
#[derive(Clone, Copy, Debug, PartialEq, Eq, Structural)]
pub enum TransitionStep {
    /// Try to take the lock.
    Try,
    /// Wait a little.
    Sleep,
    /// The lock is held.
    Held,
    /// The lock cannot be tried.
    Failed,
}

/// What happened in waiting for the turn.
#[derive(Clone, Copy, Debug, PartialEq, Eq, Structural)]
pub enum TransitionEvent {
    /// Whether the lock was taken.
    Locked(bool),
    Slept,
    Failed,
}

/// The step after an event.
pub open spec fn transition_next(step: TransitionStep, event: TransitionEvent) -> TransitionStep {
    match (step, event) {
        (TransitionStep::Try, TransitionEvent::Locked(true)) => TransitionStep::Held,
        (TransitionStep::Try, TransitionEvent::Locked(false)) => TransitionStep::Sleep,
        (TransitionStep::Try, TransitionEvent::Failed) => TransitionStep::Failed,
        (TransitionStep::Sleep, TransitionEvent::Slept) => TransitionStep::Try,
        _ => step,
    }
}

impl TransitionStep {
    /// Takes an event into account.
    pub fn advance(self, event: TransitionEvent) -> (r: TransitionStep)
        ensures
            r == transition_next(self, event),
    {
        match (self, event) {
            (TransitionStep::Try, TransitionEvent::Locked(true)) => TransitionStep::Held,
            (TransitionStep::Try, TransitionEvent::Locked(false)) => TransitionStep::Sleep,
            (TransitionStep::Try, TransitionEvent::Failed) => TransitionStep::Failed,
            (TransitionStep::Sleep, TransitionEvent::Slept) => TransitionStep::Try,
            _ => self,
        }
    }
}

// ------------------------------------------------------------------------------------------------
// What making way achieves
// ------------------------------------------------------------------------------------------------

/// Without leave to replace, a name is free exactly where nothing holds it.
pub proof fn free_names_are_given(event: TargetEvent)
    ensures
        target_start(false) == TargetStep::CheckTarget,
        target_next(target_start(false), TargetEvent::Found(false)) == TargetStep::Ready,
        target_next(target_start(false), TargetEvent::Found(true)) == TargetStep::Taken,
{
}

/// With leave to replace, what holds the name makes way: its record is brought up to date, a sandbox
/// that runs, drains or is paused is stopped, its lineage and its name are locked, it is seen not to
/// live, and then its sockets, its storage and its record go, in this order. Where there is no
/// record, the rest goes all the same.
pub proof fn old_sandboxes_make_way(status: SandboxStatus)
    ensures
        ({
            let found = target_next(target_start(true), TargetEvent::Found(true));
            let current = target_next(found, TargetEvent::Status(status));
            let stopped = if status == SandboxStatus::Running || status == SandboxStatus::Draining
                || status == SandboxStatus::Paused {
                target_next(current, TargetEvent::Done)
            } else {
                current
            };
            let lineage = target_next(stopped, TargetEvent::Done);
            let locked = target_next(lineage, TargetEvent::Done);
            let dead = target_next(locked, TargetEvent::Live(false));
            let unplugged = target_next(dead, TargetEvent::Done);
            let emptied = target_next(unplugged, TargetEvent::Done);
            &&& target_start(true) == TargetStep::FindRecord
            &&& found == TargetStep::Reconcile
            &&& status == SandboxStatus::Running || status == SandboxStatus::Draining || status
                == SandboxStatus::Paused ==> current == TargetStep::StopOld
            &&& stopped == (TargetStep::LockLineage { recorded: true })
            &&& lineage == (TargetStep::TakeLifecycle { recorded: true })
            &&& locked == TargetStep::JudgeRuntime
            &&& dead == (TargetStep::RemoveSockets { recorded: true })
            &&& unplugged == (TargetStep::RemoveStorage { recorded: true })
            &&& emptied == TargetStep::DeleteRecord
            &&& target_next(emptied, TargetEvent::Done) == TargetStep::Ready
        }),
        ({
            let missing = target_next(target_start(true), TargetEvent::Found(false));
            let lineage = target_next(missing, TargetEvent::Done);
            let locked = target_next(lineage, TargetEvent::Done);
            let silent = target_next(locked, TargetEvent::Live(false));
            let unplugged = target_next(silent, TargetEvent::Done);
            &&& missing == (TargetStep::LockLineage { recorded: false })
            &&& lineage == (TargetStep::TakeLifecycle { recorded: false })
            &&& locked == TargetStep::ProbeEndpoint
            &&& silent == (TargetStep::RemoveSockets { recorded: false })
            &&& unplugged == (TargetStep::RemoveStorage { recorded: false })
            &&& target_next(unplugged, TargetEvent::Done) == TargetStep::Ready
        }),
{
}

/// What lives keeps its name, and it is said what lives; a step that fails ends the matter; and
/// nothing follows the end.
pub proof fn the_living_keep_their_name(step: TargetStep, event: TargetEvent)
    ensures
        target_next(TargetStep::JudgeRuntime, TargetEvent::Live(true)) == TargetStep::StillAlive(
            Obstacle::RecordedRuntime,
        ),
        target_next(TargetStep::ProbeEndpoint, TargetEvent::Live(true)) == TargetStep::StillAlive(
            Obstacle::UntrackedEndpoint,
        ),
        ({
            let over = step == TargetStep::Ready || step == TargetStep::Taken || step is StillAlive
                || step == TargetStep::Failed;
            &&& over ==> target_next(step, event) == step
            &&& !over ==> target_next(step, TargetEvent::Failed) == TargetStep::Failed
        }),
{
}

/// On the way to a free name only the report that a step asks for counts.
pub proof fn stray_reports_do_not_free_a_name(step: TargetStep, event: TargetEvent)
    requires
        event != TargetEvent::Failed,
        match step {
            TargetStep::CheckTarget => !(event is Found),
            TargetStep::FindRecord => !(event is Found),
            TargetStep::Reconcile => !(event is Status),
            TargetStep::JudgeRuntime => !(event is Live),
            TargetStep::ProbeEndpoint => !(event is Live),
            _ => event != TargetEvent::Done,
        },
    ensures
        target_next(step, event) == step,
{
}

/// A sandbox that is to be replaced is stopped: the process that its record identifies is asked to
/// terminate where it gets the time, then killed and seen gone; where the record identifies none,
/// the name is seen to be in nobody's hands. Then it is marked as stopped.
pub proof fn old_sandboxes_are_stopped(grace: bool)
    ensures
        ({
            let identified = stop_old_next(
                StopOldStep::Identify,
                StopOldEvent::Identified(true),
                grace,
            );
            let asked = stop_old_next(StopOldStep::Terminate, StopOldEvent::Done, grace);
            let unasked = stop_old_next(StopOldStep::Terminate, StopOldEvent::Failed, grace);
            let waited = stop_old_next(StopOldStep::AwaitGrace, StopOldEvent::Done, grace);
            let killed = stop_old_next(StopOldStep::Kill, StopOldEvent::Done, grace);
            let left = stop_old_next(killed, StopOldEvent::Done, grace);
            let gone = stop_old_next(left, StopOldEvent::Exited(true), grace);
            let unknown = stop_old_next(
                StopOldStep::Identify,
                StopOldEvent::Identified(false),
                grace,
            );
            &&& stop_old_run(Seq::empty(), grace) == StopOldStep::Identify
            &&& grace ==> identified == StopOldStep::Terminate
            &&& !grace ==> identified == StopOldStep::Kill
            &&& asked == StopOldStep::AwaitGrace && unasked == StopOldStep::AwaitGrace
            &&& waited == StopOldStep::Kill
            &&& killed == StopOldStep::AwaitExit
            &&& left == StopOldStep::ObserveExit
            &&& gone == StopOldStep::MarkStopped
            &&& unknown == StopOldStep::ObserveOwner
            &&& stop_old_next(unknown, StopOldEvent::Owned(false), grace)
                == StopOldStep::MarkStopped
            &&& stop_old_next(StopOldStep::MarkStopped, StopOldEvent::Done, grace)
                == StopOldStep::Stopped
        }),
{
}

/// What cannot be stopped is not marked as stopped: it is said why, a step that fails ends the
/// matter, and nothing follows the end.
pub proof fn what_cannot_be_stopped_is_named(step: StopOldStep, event: StopOldEvent, grace: bool)
    ensures
        stop_old_next(StopOldStep::ObserveExit, StopOldEvent::Exited(false), grace)
            == StopOldStep::StillAlive(Obstacle::SurvivedKill),
        stop_old_next(StopOldStep::ObserveOwner, StopOldEvent::Owned(true), grace)
            == StopOldStep::StillAlive(Obstacle::UnidentifiedOwner),
        step == StopOldStep::Identify || step == StopOldStep::Kill || step
            == StopOldStep::ObserveOwner || step == StopOldStep::MarkStopped ==> stop_old_next(
            step,
            StopOldEvent::Failed,
            grace,
        ) == StopOldStep::Failed,
        step == StopOldStep::Stopped || step is StillAlive || step == StopOldStep::Failed
            ==> stop_old_next(step, event, grace) == step,
        step == StopOldStep::Identify && !(event is Identified) && event != StopOldEvent::Failed
            ==> stop_old_next(step, event, grace) == step,
        step == StopOldStep::ObserveExit && !(event is Exited) ==> stop_old_next(step, event, grace)
            == step,
        step == StopOldStep::ObserveOwner && !(event is Owned) && event != StopOldEvent::Failed
            ==> stop_old_next(step, event, grace) == step,
        (step == StopOldStep::AwaitGrace || step == StopOldStep::AwaitExit) && event
            != StopOldEvent::Done ==> stop_old_next(step, event, grace) == step,
        (step == StopOldStep::Terminate || step == StopOldStep::Kill || step
            == StopOldStep::MarkStopped) && event != StopOldEvent::Done && event
            != StopOldEvent::Failed ==> stop_old_next(step, event, grace) == step,
{
}

/// A failed startup is rolled back: under the lock of the name its runs are marked as failed, and
/// then either the volumes that were made for it go with its record, or its record is marked as
/// stopped. Failing to remove or to mark does not stop the rollback.
pub proof fn failed_startups_are_rolled_back(event: RollbackEvent, has_volumes: bool)
    ensures
        ({
            let locked = rollback_next(
                RollbackStep::TakeLifecycle,
                RollbackEvent::Locked(true),
                has_volumes,
            );
            let failed = rollback_next(locked, RollbackEvent::Done, has_volumes);
            let removed = rollback_next(failed, event, has_volumes);
            &&& locked == RollbackStep::FailRuns
            &&& has_volumes ==> failed == RollbackStep::RemoveVolumes && removed
                == RollbackStep::DeleteRecord && rollback_next(removed, event, has_volumes)
                == RollbackStep::RolledBack
            &&& !has_volumes ==> failed == RollbackStep::StopRecord && removed
                == RollbackStep::RolledBack
        }),
{
}

/// A rollback that cannot go on says so: a name that a runtime holds leaves it pending, and a lock
/// or a run that cannot be had fails it. Nothing follows the end.
pub proof fn rollbacks_that_cannot_go_on(
    step: RollbackStep,
    event: RollbackEvent,
    has_volumes: bool,
)
    ensures
        rollback_next(RollbackStep::TakeLifecycle, RollbackEvent::Locked(false), has_volumes)
            == RollbackStep::Pending,
        rollback_next(RollbackStep::TakeLifecycle, RollbackEvent::Failed, has_volumes)
            == RollbackStep::Failed,
        rollback_next(RollbackStep::FailRuns, RollbackEvent::Failed, has_volumes)
            == RollbackStep::Failed,
        step == RollbackStep::RolledBack || step == RollbackStep::Pending || step
            == RollbackStep::Failed ==> rollback_next(step, event, has_volumes) == step,
        step == RollbackStep::TakeLifecycle && event == RollbackEvent::Done ==> rollback_next(
            step,
            event,
            has_volumes,
        ) == step,
        step == RollbackStep::FailRuns && event is Locked ==> rollback_next(
            step,
            event,
            has_volumes,
        ) == step,
{
}

/// Rolling back fails exactly the runs of the sandbox that had not ended; every other run stays as
/// it is.
pub proof fn only_live_runs_are_failed(run: RunRow, sandbox_id: i32)
    ensures
        rolled_back(run, sandbox_id).id == run.id,
        rolled_back(run, sandbox_id).sandbox_id == run.sandbox_id,
        run.ended is Some ==> rolled_back(run, sandbox_id) == run,
        run.sandbox_id != sandbox_id ==> rolled_back(run, sandbox_id) == run,
        run.sandbox_id == sandbox_id && run.ended is None ==> rolled_back(run, sandbox_id).ended
            == Some(TerminationReason::Failed),
{
}

/// A turn is waited for until it comes: a lock that is held elsewhere is tried again after a pause,
/// as often as it takes, and one that is free is held.
pub proof fn turns_come(step: TransitionStep, event: TransitionEvent)
    ensures
        transition_next(TransitionStep::Try, TransitionEvent::Locked(true)) == TransitionStep::Held,
        transition_next(TransitionStep::Try, TransitionEvent::Locked(false))
            == TransitionStep::Sleep,
        transition_next(TransitionStep::Sleep, TransitionEvent::Slept) == TransitionStep::Try,
        transition_next(TransitionStep::Try, TransitionEvent::Failed) == TransitionStep::Failed,
        step == TransitionStep::Held || step == TransitionStep::Failed ==> transition_next(
            step,
            event,
        ) == step,
        step == TransitionStep::Sleep && event != TransitionEvent::Slept ==> transition_next(
            step,
            event,
        ) == step,
        step == TransitionStep::Try && event == TransitionEvent::Slept ==> transition_next(
            step,
            event,
        ) == step,
{
}

/// The socket of a sandbox in its own directory is under that directory, and the probes that say
/// nothing are those of sockets that are missing or refuse.
pub proof fn silence_is_no_life(error: IoError)
    ensures
        is_silent(EndpointProbe::Missing),
        !is_silent(EndpointProbe::Connected),
        is_silent(EndpointProbe::Failed(error)) <==> error.kind == IoErrorKind::ConnectionRefused
            || error.kind == IoErrorKind::NotFound,
{
}

/// A name that is taken is refused with what can be done about it, and a sandbox that cannot be
/// replaced with what still holds it.
pub proof fn refused_names_say_why(name: Seq<char>)
    ensures
        taken(name) == ErrorView::SandboxAlreadyExists(
            "sandbox '"@ + name
                + "' already exists; remove it, start the stopped sandbox, or recreate with .replace()"@,
        ),
        obstacle_text(Obstacle::RecordedRuntime)
            == ": its recorded runtime process is still alive"@,
        obstacle_text(Obstacle::UntrackedEndpoint)
            == ": an untracked runtime endpoint is still live"@,
        obstacle_text(Obstacle::SurvivedKill) == ": runtime did not exit after SIGKILL"@,
        obstacle_text(Obstacle::UnidentifiedOwner)
            == ": its lifecycle lock is held by a runtime the recorded run does not identify"@,
{
}

/// A lock that another holds is tried a hundred times a second.
pub proof fn turns_are_asked_for_in_steps()
    ensures
        TRANSITION_POLL_MS * 100 == 1_000,
{
}

/// A sandbox has its own socket in its directory, below that of its runtime.
pub proof fn sandboxes_have_their_own_socket(sandbox_dir: Seq<char>)
    requires
        sandbox_dir.len() > 0,
        sandbox_dir.last() != '/',
    ensures
        own_socket(sandbox_dir) == sandbox_dir + "/runtime/agent.sock"@,
{
    reveal_strlit("runtime");
    reveal_strlit("agent.sock");
    reveal_strlit("/runtime/agent.sock");
    let inner = joined(sandbox_dir, "runtime"@);
    assert("runtime"@.len() == 7 && "runtime"@[0] == 'r' && "runtime"@[6] == 'e');
    assert("agent.sock"@.len() == 10 && "agent.sock"@[0] == 'a');
    assert(inner =~= sandbox_dir + seq!['/'] + "runtime"@);
    assert(inner.last() == 'e');
    assert(seq!['/'] + "runtime"@ + seq!['/'] + "agent.sock"@ =~= "/runtime/agent.sock"@);
    assert(own_socket(sandbox_dir) =~= sandbox_dir + "/runtime/agent.sock"@);
}

} // verus!
