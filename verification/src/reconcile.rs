//! Reconciling a sandbox record with the process behind it.

use vstd::prelude::*;

use crate::catalog::{
    is_active, stale_runtime_terminal_state, status_is_active, terminal_state, TerminationReason,
};
use crate::types::SandboxStatus;

verus! {

/// What a reconciliation depends on.
#[derive(Clone, Copy, Debug, PartialEq, Eq, Structural)]
pub struct ReconcileScope {
    /// Whether the directories of sockets and locks are known.
    pub has_roots: bool,
    /// Whether the caller holds the transition lock of the name already.
    pub transition_owned: bool,
}

/// What a reconciliation does next.
#[derive(Clone, Copy, Debug, PartialEq, Eq, Structural)]
pub enum ReconcileStep {
    /// Judge whether the recorded runtime is alive.
    Observe,
    /// Try to take the transition lock of the name.
    TakeTransition,
    /// Try to take the lifecycle lock of the name.
    TakeLifecycle,
    /// Read the record again.
    Reload,
    /// Read the run again and judge whether its runtime is alive.
    ObserveAgain { status: SandboxStatus },
    /// Remove the sockets of the name.
    RemoveSockets { status: SandboxStatus, run: Option<i32> },
    /// Retire the record, and the run where there is one.
    Retire { terminal: SandboxStatus, reason: TerminationReason, run: Option<i32> },
    /// Read the retired record.
    ReadBack,
    /// The record stands as it was first read.
    Unchanged,
    /// The record stands as it was read again.
    Reloaded { status: SandboxStatus },
    /// The record was retired.
    Reconciled { status: SandboxStatus },
    /// The record is gone.
    Missing,
    /// The host or the catalog failed.
    Failed,
}

/// What a reconciliation found.
#[derive(Clone, Copy, Debug, PartialEq, Eq, Structural)]
pub enum ReconcileEvent {
    /// Whether the recorded runtime is alive.
    Alive(bool),
    /// Whether the lock was taken.
    Taken(bool),
    /// The state of the record, if it is there.
    Row(Option<SandboxStatus>),
    /// There is no run.
    NoRun,
    /// The run, and whether its runtime is alive.
    Run { run: i32, alive: bool },
    Done,
    Failed,
}

/// The first step for a record.
pub open spec fn reconcile_start(status: SandboxStatus) -> ReconcileStep {
    if is_active(status) {
        ReconcileStep::Observe
    } else {
        ReconcileStep::Unchanged
    }
}

/// The step that retires a record: sockets go first, where they are known.
pub open spec fn retire(status: SandboxStatus, run: Option<i32>, scope: ReconcileScope) -> ReconcileStep {
    if scope.has_roots {
        ReconcileStep::RemoveSockets { status, run }
    } else {
        ReconcileStep::Retire {
            terminal: terminal_state(status).0,
            reason: terminal_state(status).1,
            run,
        }
    }
}

/// Whether a record without a run is retired: a drain had been accepted, or the launcher that
/// claimed the start is gone. The latter takes the locks to know.
pub open spec fn abandoned(status: SandboxStatus, scope: ReconcileScope) -> bool {
    status == SandboxStatus::Draining || (status == SandboxStatus::Starting && scope.has_roots)
}

/// The step after an event. An event that the step does not expect changes nothing.
pub open spec fn reconcile_next(
    step: ReconcileStep,
    event: ReconcileEvent,
    scope: ReconcileScope,
) -> ReconcileStep {
    match (step, event) {
        (ReconcileStep::Observe, ReconcileEvent::Alive(alive)) => if alive {
            ReconcileStep::Unchanged
        } else if scope.has_roots && !scope.transition_owned {
            ReconcileStep::TakeTransition
        } else if scope.has_roots {
            ReconcileStep::TakeLifecycle
        } else {
            ReconcileStep::Reload
        },
        (ReconcileStep::TakeTransition, ReconcileEvent::Taken(taken)) => if taken {
            ReconcileStep::TakeLifecycle
        } else {
            ReconcileStep::Unchanged
        },
        (ReconcileStep::TakeLifecycle, ReconcileEvent::Taken(taken)) => if taken {
            ReconcileStep::Reload
        } else {
            ReconcileStep::Unchanged
        },
        (ReconcileStep::Reload, ReconcileEvent::Row(None)) => ReconcileStep::Missing,
        (ReconcileStep::Reload, ReconcileEvent::Row(Some(status))) => if is_active(status) {
            ReconcileStep::ObserveAgain { status }
        } else {
            ReconcileStep::Reloaded { status }
        },
        (ReconcileStep::ObserveAgain { status }, ReconcileEvent::NoRun) => if abandoned(
            status,
            scope,
        ) {
            retire(status, None, scope)
        } else {
            ReconcileStep::Reloaded { status }
        },
        (ReconcileStep::ObserveAgain { status }, ReconcileEvent::Run { run, alive }) => {
            if alive {
                ReconcileStep::Reloaded { status }
            } else {
                retire(status, Some(run), scope)
            }
        },
        (ReconcileStep::RemoveSockets { status, run }, ReconcileEvent::Done) => {
            ReconcileStep::Retire {
                terminal: terminal_state(status).0,
                reason: terminal_state(status).1,
                run,
            }
        },
        (ReconcileStep::Retire { terminal, reason, run }, ReconcileEvent::Done) => {
            ReconcileStep::ReadBack
        },
        (ReconcileStep::ReadBack, ReconcileEvent::Row(None)) => ReconcileStep::Missing,
        (ReconcileStep::ReadBack, ReconcileEvent::Row(Some(status))) => {
            ReconcileStep::Reconciled { status }
        },
        (ReconcileStep::Observe, ReconcileEvent::Failed) => ReconcileStep::Failed,
        (ReconcileStep::TakeTransition, ReconcileEvent::Failed) => ReconcileStep::Failed,
        (ReconcileStep::TakeLifecycle, ReconcileEvent::Failed) => ReconcileStep::Failed,
        (ReconcileStep::Reload, ReconcileEvent::Failed) => ReconcileStep::Failed,
        (ReconcileStep::ObserveAgain { status }, ReconcileEvent::Failed) => ReconcileStep::Failed,
        (ReconcileStep::RemoveSockets { status, run }, ReconcileEvent::Failed) => {
            ReconcileStep::Failed
        },
        (ReconcileStep::Retire { terminal, reason, run }, ReconcileEvent::Failed) => {
            ReconcileStep::Failed
        },
        (ReconcileStep::ReadBack, ReconcileEvent::Failed) => ReconcileStep::Failed,
        _ => step,
    }
}

impl ReconcileStep {
    /// Begins to reconcile a record.
    pub fn start(status: SandboxStatus) -> (r: ReconcileStep)
        ensures
            r == reconcile_start(status),
    {
        if status_is_active(status) {
            ReconcileStep::Observe
        } else {
            ReconcileStep::Unchanged
        }
    }

    fn retiring(status: SandboxStatus, run: Option<i32>, scope: ReconcileScope) -> (r: ReconcileStep)
        ensures
            r == retire(status, run, scope),
    {
        if scope.has_roots {
            ReconcileStep::RemoveSockets { status, run }
        } else {
            let (terminal, reason) = stale_runtime_terminal_state(status);
            ReconcileStep::Retire { terminal, reason, run }
        }
    }

    /// Takes an event into account.
    pub fn advance(self, event: ReconcileEvent, scope: ReconcileScope) -> (r: ReconcileStep)
        ensures
            r == reconcile_next(self, event, scope),
    {
        match (self, event) {
            (ReconcileStep::Observe, ReconcileEvent::Alive(alive)) => {
                if alive {
                    ReconcileStep::Unchanged
                } else if scope.has_roots && !scope.transition_owned {
                    ReconcileStep::TakeTransition
                } else if scope.has_roots {
                    ReconcileStep::TakeLifecycle
                } else {
                    ReconcileStep::Reload
                }
            },
            (ReconcileStep::TakeTransition, ReconcileEvent::Taken(taken)) => {
                if taken {
                    ReconcileStep::TakeLifecycle
                } else {
                    ReconcileStep::Unchanged
                }
            },
            (ReconcileStep::TakeLifecycle, ReconcileEvent::Taken(taken)) => {
                if taken {
                    ReconcileStep::Reload
                } else {
                    ReconcileStep::Unchanged
                }
            },
            (ReconcileStep::Reload, ReconcileEvent::Row(None)) => ReconcileStep::Missing,
            (ReconcileStep::Reload, ReconcileEvent::Row(Some(status))) => {
                if status_is_active(status) {
                    ReconcileStep::ObserveAgain { status }
                } else {
                    ReconcileStep::Reloaded { status }
                }
            },
            (ReconcileStep::ObserveAgain { status }, ReconcileEvent::NoRun) => {
                if status == SandboxStatus::Draining || (status == SandboxStatus::Starting
                    && scope.has_roots) {
                    Self::retiring(status, None, scope)
                } else {
                    ReconcileStep::Reloaded { status }
                }
            },
            (ReconcileStep::ObserveAgain { status }, ReconcileEvent::Run { run, alive }) => {
                if alive {
                    ReconcileStep::Reloaded { status }
                } else {
                    Self::retiring(status, Some(run), scope)
                }
            },
            (ReconcileStep::RemoveSockets { status, run }, ReconcileEvent::Done) => {
                let (terminal, reason) = stale_runtime_terminal_state(status);
                ReconcileStep::Retire { terminal, reason, run }
            },
            (ReconcileStep::Retire { .. }, ReconcileEvent::Done) => ReconcileStep::ReadBack,
            (ReconcileStep::ReadBack, ReconcileEvent::Row(None)) => ReconcileStep::Missing,
            (ReconcileStep::ReadBack, ReconcileEvent::Row(Some(status))) => {
                ReconcileStep::Reconciled { status }
            },
            (ReconcileStep::Observe, ReconcileEvent::Failed) => ReconcileStep::Failed,
            (ReconcileStep::TakeTransition, ReconcileEvent::Failed) => ReconcileStep::Failed,
            (ReconcileStep::TakeLifecycle, ReconcileEvent::Failed) => ReconcileStep::Failed,
            (ReconcileStep::Reload, ReconcileEvent::Failed) => ReconcileStep::Failed,
            (ReconcileStep::ObserveAgain { .. }, ReconcileEvent::Failed) => ReconcileStep::Failed,
            (ReconcileStep::RemoveSockets { .. }, ReconcileEvent::Failed) => ReconcileStep::Failed,
            (ReconcileStep::Retire { .. }, ReconcileEvent::Failed) => ReconcileStep::Failed,
            (ReconcileStep::ReadBack, ReconcileEvent::Failed) => ReconcileStep::Failed,
            _ => self,
        }
    }
}

/// The step that a list of events leads to.
pub open spec fn reconcile_run(
    status: SandboxStatus,
    events: Seq<ReconcileEvent>,
    scope: ReconcileScope,
) -> ReconcileStep
    decreases events.len(),
{
    if events.len() == 0 {
        reconcile_start(status)
    } else {
        reconcile_next(reconcile_run(status, events.drop_last(), scope), events.last(), scope)
    }
}

/// Whether a step comes after the record was read again.
pub open spec fn is_late(step: ReconcileStep) -> bool {
    match step {
        ReconcileStep::Reload => true,
        ReconcileStep::ObserveAgain { status } => true,
        ReconcileStep::RemoveSockets { status, run } => true,
        ReconcileStep::Retire { terminal, reason, run } => true,
        ReconcileStep::ReadBack => true,
        ReconcileStep::Reconciled { status } => true,
        _ => false,
    }
}

/// How many locks were taken.
pub open spec fn locks_taken(
    status: SandboxStatus,
    events: Seq<ReconcileEvent>,
    scope: ReconcileScope,
) -> nat
    decreases events.len(),
{
    if events.len() == 0 {
        0
    } else {
        let before = events.drop_last();
        let step = reconcile_run(status, before, scope);
        locks_taken(status, before, scope) + if (step == ReconcileStep::TakeTransition || step
            == ReconcileStep::TakeLifecycle) && events.last() == ReconcileEvent::Taken(true) {
            1nat
        } else {
            0nat
        }
    }
}

/// Where the locks are known, a record is touched only while they are held: the lifecycle lock,
/// and the transition lock unless the caller holds that one already.
pub proof fn records_are_retired_under_lock(
    status: SandboxStatus,
    events: Seq<ReconcileEvent>,
    scope: ReconcileScope,
)
    ensures
        ({
            let step = reconcile_run(status, events, scope);
            let locks = locks_taken(status, events, scope);
            &&& step == ReconcileStep::Observe ==> locks == 0
            &&& step == ReconcileStep::TakeTransition ==> locks == 0 && scope.has_roots
                && !scope.transition_owned
            &&& step == ReconcileStep::TakeLifecycle ==> scope.has_roots && locks == if scope.transition_owned {
                0nat
            } else {
                1nat
            }
            &&& is_late(step) && scope.has_roots ==> locks == if scope.transition_owned {
                1nat
            } else {
                2nat
            }
        }),
    decreases events.len(),
{
    if events.len() > 0 {
        records_are_retired_under_lock(status, events.drop_last(), scope);
    }
}

/// A record is retired only after its runtime was judged not to be alive, twice: before and after
/// the locks were taken.
pub proof fn live_runtimes_are_never_retired(
    step: ReconcileStep,
    event: ReconcileEvent,
    scope: ReconcileScope,
)
    ensures
        step == ReconcileStep::Observe && event == ReconcileEvent::Alive(true) ==> reconcile_next(
            step,
            event,
            scope,
        ) == ReconcileStep::Unchanged,
        forall|run: i32| #[trigger]
            is_run(event, run, true) && step is ObserveAgain ==> reconcile_next(step, event, scope)
                == (ReconcileStep::Reloaded { status: step->ObserveAgain_status }),
{
}

/// Whether an event reports the run with the given liveness.
pub open spec fn is_run(event: ReconcileEvent, run: i32, alive: bool) -> bool {
    event == (ReconcileEvent::Run { run, alive })
}

/// A draining sandbox whose runtime is gone comes to rest as stopped, every other as crashed.
pub proof fn the_gone_come_to_rest(
    step: ReconcileStep,
    event: ReconcileEvent,
    scope: ReconcileScope,
)
    requires
        !(step is Retire),
        reconcile_next(step, event, scope) is Retire,
    ensures
        ({
            let status = if step is ObserveAgain {
                step->ObserveAgain_status
            } else {
                step->RemoveSockets_status
            };
            let next = reconcile_next(step, event, scope);
            &&& step is ObserveAgain || step is RemoveSockets
            &&& status == SandboxStatus::Draining ==> next->terminal == SandboxStatus::Stopped
                && next->reason == TerminationReason::ShutdownRequested
            &&& status != SandboxStatus::Draining ==> next->terminal == SandboxStatus::Crashed
                && next->reason == TerminationReason::InternalError
        }),
{
}

/// A record without a run is retired only where a drain had been accepted, or where the locks show
/// that the creator of a starting sandbox is gone.
pub proof fn only_the_abandoned_are_retired_without_a_run(
    status: SandboxStatus,
    event: ReconcileEvent,
    scope: ReconcileScope,
)
    requires
        ({
            let next = reconcile_next(ReconcileStep::ObserveAgain { status }, event, scope);
            (next is RemoveSockets && next->RemoveSockets_run is None) || (next is Retire
                && next->Retire_run is None)
        }),
    ensures
        status == SandboxStatus::Draining || (status == SandboxStatus::Starting
            && scope.has_roots),
{
}

/// Whether the sessions that control a sandbox are dropped after reconciliation.
pub fn drops_control_sessions(status: SandboxStatus) -> (r: bool)
    ensures
        r == (status != SandboxStatus::Running && status != SandboxStatus::Draining),
{
    status != SandboxStatus::Running && status != SandboxStatus::Draining
}

/// The dead are retired. A record that claims a runtime which is not there comes to rest: under its
/// locks, with its sockets removed first where they are known, with the run that was found, as
/// stopped where it was asked to stop and as crashed where it was not.
pub proof fn the_dead_are_retired(
    first: SandboxStatus,
    status: SandboxStatus,
    run: i32,
    scope: ReconcileScope,
)
    requires
        first == SandboxStatus::Starting || first == SandboxStatus::Running || first
            == SandboxStatus::Draining,
        status == SandboxStatus::Starting || status == SandboxStatus::Running || status
            == SandboxStatus::Draining,
    ensures
        ({
            let seen = reconcile_next(
                reconcile_start(first),
                ReconcileEvent::Alive(false),
                scope,
            );
            let locked = if !scope.has_roots {
                seen
            } else if scope.transition_owned {
                reconcile_next(seen, ReconcileEvent::Taken(true), scope)
            } else {
                reconcile_next(
                    reconcile_next(seen, ReconcileEvent::Taken(true), scope),
                    ReconcileEvent::Taken(true),
                    scope,
                )
            };
            let read = reconcile_next(locked, ReconcileEvent::Row(Some(status)), scope);
            let dead = reconcile_next(read, ReconcileEvent::Run { run, alive: false }, scope);
            let retiring = if scope.has_roots {
                reconcile_next(dead, ReconcileEvent::Done, scope)
            } else {
                dead
            };
            let retired = reconcile_next(retiring, ReconcileEvent::Done, scope);
            &&& locked == ReconcileStep::Reload
            &&& read == (ReconcileStep::ObserveAgain { status })
            &&& scope.has_roots ==> dead == (ReconcileStep::RemoveSockets { status, run: Some(run) })
            &&& retiring == if status == SandboxStatus::Draining {
                ReconcileStep::Retire {
                    terminal: SandboxStatus::Stopped,
                    reason: TerminationReason::ShutdownRequested,
                    run: Some(run),
                }
            } else {
                ReconcileStep::Retire {
                    terminal: SandboxStatus::Crashed,
                    reason: TerminationReason::InternalError,
                    run: Some(run),
                }
            }
            &&& retired == ReconcileStep::ReadBack
            &&& forall|after: SandboxStatus| #[trigger]
                reconcile_next(retired, ReconcileEvent::Row(Some(after)), scope) == (
                ReconcileStep::Reconciled { status: after })
            &&& reconcile_next(retired, ReconcileEvent::Row(None), scope) == ReconcileStep::Missing
        }),
{
}

/// Records without a run come to rest too where nobody is left to give them one: a drain that was
/// accepted, and a start whose launcher is seen to be gone. All others keep what they say.
pub proof fn the_abandoned_are_retired(status: SandboxStatus, scope: ReconcileScope)
    ensures
        ({
            let next = reconcile_next(
                ReconcileStep::ObserveAgain { status },
                ReconcileEvent::NoRun,
                scope,
            );
            match status {
                SandboxStatus::Draining => next == if scope.has_roots {
                    ReconcileStep::RemoveSockets { status, run: None }
                } else {
                    ReconcileStep::Retire {
                        terminal: SandboxStatus::Stopped,
                        reason: TerminationReason::ShutdownRequested,
                        run: None,
                    }
                },
                SandboxStatus::Starting => next == if scope.has_roots {
                    ReconcileStep::RemoveSockets { status, run: None }
                } else {
                    ReconcileStep::Reloaded { status }
                },
                _ => next == (ReconcileStep::Reloaded { status }),
            }
        }),
{
}

/// What is alive, at rest, gone or in other hands is left alone: a record at rest is not even
/// looked at, a live runtime keeps its record, a lock that is held elsewhere ends the matter, and a
/// record that came to rest in the meantime stands as it was read.
pub proof fn the_rest_is_left_alone(status: SandboxStatus, run: i32, scope: ReconcileScope)
    ensures
        reconcile_start(status) == match status {
            SandboxStatus::Starting => ReconcileStep::Observe,
            SandboxStatus::Running => ReconcileStep::Observe,
            SandboxStatus::Draining => ReconcileStep::Observe,
            _ => ReconcileStep::Unchanged,
        },
        reconcile_next(ReconcileStep::Observe, ReconcileEvent::Alive(true), scope)
            == ReconcileStep::Unchanged,
        reconcile_next(ReconcileStep::Observe, ReconcileEvent::Alive(false), scope) == (
        if !scope.has_roots {
            ReconcileStep::Reload
        } else if scope.transition_owned {
            ReconcileStep::TakeLifecycle
        } else {
            ReconcileStep::TakeTransition
        }),
        reconcile_next(ReconcileStep::TakeTransition, ReconcileEvent::Taken(true), scope)
            == ReconcileStep::TakeLifecycle,
        reconcile_next(ReconcileStep::TakeTransition, ReconcileEvent::Taken(false), scope)
            == ReconcileStep::Unchanged,
        reconcile_next(ReconcileStep::TakeLifecycle, ReconcileEvent::Taken(false), scope)
            == ReconcileStep::Unchanged,
        reconcile_next(ReconcileStep::Reload, ReconcileEvent::Row(None), scope)
            == ReconcileStep::Missing,
        reconcile_next(ReconcileStep::Reload, ReconcileEvent::Row(Some(status)), scope)
            == match status {
            SandboxStatus::Starting => ReconcileStep::ObserveAgain { status },
            SandboxStatus::Running => ReconcileStep::ObserveAgain { status },
            SandboxStatus::Draining => ReconcileStep::ObserveAgain { status },
            _ => ReconcileStep::Reloaded { status },
        },
        reconcile_next(
            ReconcileStep::ObserveAgain { status },
            ReconcileEvent::Run { run, alive: true },
            scope,
        ) == (ReconcileStep::Reloaded { status }),
{
}

/// Whether a reconciliation is over.
pub open spec fn is_settled(step: ReconcileStep) -> bool {
    step == ReconcileStep::Unchanged || step is Reloaded || step is Reconciled || step
        == ReconcileStep::Missing || step == ReconcileStep::Failed
}

/// A step that fails fails the reconciliation, and nothing follows once it is over.
pub proof fn failures_end_a_reconciliation(
    step: ReconcileStep,
    event: ReconcileEvent,
    scope: ReconcileScope,
)
    ensures
        !is_settled(step) ==> reconcile_next(step, ReconcileEvent::Failed, scope)
            == ReconcileStep::Failed,
        is_settled(step) ==> reconcile_next(step, event, scope) == step,
{
}

} // verus!
