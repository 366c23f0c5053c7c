//! The course of a creation: what is done in which order, and what a failure undoes.

use vstd::prelude::*;

use crate::spawn::SpawnMode;
use crate::types::{RootfsSource, SandboxConfig};

verus! {

/// What a creation depends on, as far as it is known. A field may change until it is first read:
/// what an archive holds, for example, is not read before the archive was unpacked.
#[derive(Clone, Copy, Debug, PartialEq, Eq, Structural)]
pub struct CreatePlan {
    /// Whether the sandbox continues from something captured.
    pub restoring: bool,
    /// Whether the options ask for an image.
    pub oci_requested: bool,
    /// Whether what holds the name may be replaced.
    pub replace: bool,
    /// Whether the options name a snapshot.
    pub named_snapshot: bool,
    /// Whether the sandbox comes from an archive.
    pub archive: bool,
    /// Whether it branches from another sandbox.
    pub branch: bool,
    /// Whether it comes from an installed checkpoint.
    pub checkpoint: bool,
    /// Whether it comes from an installed disk snapshot.
    pub files: bool,
    /// Whether a snapshot brings volumes along.
    pub owned_source: bool,
    /// Whether the sandbox boots an image.
    pub oci: bool,
    /// Whether the root filesystem is patched.
    pub patches: bool,
    /// Whether volumes belong to the sandbox alone.
    pub owned_volumes: bool,
    /// Whether a working directory is configured.
    pub workdir: bool,
    /// Whether the machine continues from a checkpoint.
    pub restores: bool,
    /// Whether the process lives on by itself.
    pub detached: bool,
}

/// What a create request asks to continue from.
#[derive(Clone, Copy, Debug, PartialEq, Eq, Structural)]
pub struct RestoreSources {
    pub snapshot_reference: bool,
    pub archive: bool,
    pub upper_source: bool,
    pub checkpoint: bool,
    pub branch: bool,
    pub snapshot_parent: bool,
}

impl RestoreSources {
    /// Whether there is anything to continue from.
    pub open spec fn any(self) -> bool {
        self.snapshot_reference || self.archive || self.upper_source || self.checkpoint
            || self.branch || self.snapshot_parent
    }

    /// Whether there is anything to continue from.
    pub fn is_restoring(self) -> (r: bool)
        ensures
            r == self.any(),
    {
        self.snapshot_reference || self.archive || self.upper_source || self.checkpoint
            || self.branch || self.snapshot_parent
    }
}

/// What an installed snapshot brings along.
#[derive(Clone, Copy, Debug, PartialEq, Eq, Structural)]
pub struct SnapshotParts {
    pub checkpoint: bool,
    pub files: bool,
    pub owned_volumes: bool,
}

impl CreatePlan {
    /// Whether the image is resolved before anything else: nothing captured has a say in it.
    pub open spec fn early(self) -> bool {
        !self.restoring && self.oci_requested
    }

    /// The plan of a configuration as it stands. `oci_requested` is whether the options asked for
    /// an image.
    pub fn of(
        config: &SandboxConfig,
        sources: RestoreSources,
        parts: SnapshotParts,
        oci_requested: bool,
        mode: SpawnMode,
    ) -> (r: CreatePlan)
        ensures
            r == (CreatePlan {
                restoring: sources.any(),
                oci_requested,
                replace: config.replace_existing,
                named_snapshot: sources.snapshot_reference,
                archive: sources.archive,
                branch: sources.branch,
                checkpoint: parts.checkpoint,
                files: parts.files,
                owned_source: parts.owned_volumes,
                oci: config.spec.image is Oci,
                patches: config.spec.patches@.len() > 0,
                owned_volumes: config.owned_volumes@.len() > 0,
                workdir: config.spec.runtime.workdir is Some,
                restores: config.checkpoint_restore is Some,
                detached: mode == SpawnMode::Detached,
            }),
    {
        let oci = match &config.spec.image {
            RootfsSource::Oci(_) => true,
            _ => false,
        };
        CreatePlan {
            restoring: sources.is_restoring(),
            oci_requested,
            replace: config.replace_existing,
            named_snapshot: sources.snapshot_reference,
            archive: sources.archive,
            branch: sources.branch,
            checkpoint: parts.checkpoint,
            files: parts.files,
            owned_source: parts.owned_volumes,
            oci,
            patches: config.spec.patches.len() > 0,
            owned_volumes: config.owned_volumes.len() > 0,
            workdir: config.spec.runtime.workdir.is_some(),
            restores: config.checkpoint_restore.is_some(),
            detached: mode == SpawnMode::Detached,
        }
    }
}

/// What a creation does next.
#[derive(Clone, Copy, Debug, PartialEq, Eq, Structural)]
pub enum CreateStep {
    /// Read the options and check the name.
    Prepare,
    /// See whether the name is free, before an image is fetched for it.
    CheckTarget,
    /// Resolve the image of a fresh sandbox.
    ResolveEarly,
    /// Complete the configuration.
    Finish,
    /// Resolve the snapshot that the options name.
    PrepareRestore,
    /// Check the configuration.
    Validate,
    /// Check that the installed runtime can run it.
    CheckRuntime,
    /// Unpack the archive into a stage and check what it holds.
    DecodeArchive,
    /// Wait for the turn to change what the name stands for.
    TakeTurn,
    /// Make way for the sandbox.
    PrepareTarget,
    /// Lock the name against runtimes.
    TakeLifecycle,
    /// See that the name is still free.
    RecheckTarget,
    /// Move the stage of the archive to the place of the sandbox.
    PublishArchive,
    /// Make the directory of a branch.
    ReserveBranch,
    /// Capture the sandbox that is branched from.
    CaptureBranch,
    /// Bring the files of an installed checkpoint in.
    MaterializeCheckpoint,
    /// Resolve the mounts.
    ResolveMounts,
    /// See that a fork continues a whole machine.
    CheckFork,
    /// Bring the files of an installed disk snapshot in.
    MaterializeFiles,
    /// Bring the volumes of a snapshot in.
    MaterializeOwned,
    /// Resolve the image.
    ResolveImage,
    /// Make the root disk.
    ProvisionRoot,
    /// Patch the root directory.
    ApplyPatches,
    /// Make the named volumes.
    EnsureVolumes,
    /// Make the volumes that belong to the sandbox.
    PrepareVolumes,
    /// Record the sandbox as starting.
    InsertRecord,
    /// Boot it.
    Boot,
    /// Record it as running.
    Publish,
    /// Record what is running.
    RecordConfig,
    /// Record the manifest that it was made from.
    PinManifest,
    /// See that its working directory is one.
    CheckWorkdir,
    /// Record that the restore has completed.
    CompleteRestore,
    /// Let the process live on by itself.
    Detach,
    /// The sandbox is ready.
    Created,
    /// Remove the named volumes that were made.
    RollBackVolumes,
    /// Terminate the process.
    Terminate { rollback: bool },
    /// Roll the startup back.
    RollBackStartup,
    /// Remove what belongs to the sandbox alone.
    FinishOwned,
    /// Leave the process and the rest to the cleanup that owns them.
    LeaveToCleanup,
    /// The creation failed.
    Failed,
    /// The creation failed, and so did its rollback.
    FailedUnclean,
}

/// What happened to a step of a creation.
#[derive(Clone, Copy, Debug, PartialEq, Eq, Structural)]
pub enum CreateEvent {
    Done,
    Failed,
    /// The record was not the one to change any more.
    Lost,
}

/// Who removes the storage of a sandbox if its creation fails.
#[derive(Clone, Copy, Debug, PartialEq, Eq, Structural)]
pub enum Storage {
    /// Nothing was staged.
    Absent,
    /// The creation removes it.
    Staged,
    /// The cleanup that owns the volumes does.
    Cleanup,
    /// The record owns it: it stays.
    Recorded,
}

/// The place of the last step.
pub const LAST_RANK: u32 = 34;

/// The place of a step in the order of a creation; zero for what only a failure leads to.
pub open spec fn rank(step: CreateStep) -> nat {
    match step {
        CreateStep::Prepare => 1,
        CreateStep::CheckTarget => 2,
        CreateStep::ResolveEarly => 3,
        CreateStep::Finish => 4,
        CreateStep::PrepareRestore => 5,
        CreateStep::Validate => 6,
        CreateStep::CheckRuntime => 7,
        CreateStep::DecodeArchive => 8,
        CreateStep::TakeTurn => 9,
        CreateStep::PrepareTarget => 10,
        CreateStep::TakeLifecycle => 11,
        CreateStep::RecheckTarget => 12,
        CreateStep::PublishArchive => 13,
        CreateStep::ReserveBranch => 14,
        CreateStep::CaptureBranch => 15,
        CreateStep::MaterializeCheckpoint => 16,
        CreateStep::ResolveMounts => 17,
        CreateStep::CheckFork => 18,
        CreateStep::MaterializeFiles => 19,
        CreateStep::MaterializeOwned => 20,
        CreateStep::ResolveImage => 21,
        CreateStep::ProvisionRoot => 22,
        CreateStep::ApplyPatches => 23,
        CreateStep::EnsureVolumes => 24,
        CreateStep::PrepareVolumes => 25,
        CreateStep::InsertRecord => 26,
        CreateStep::Boot => 27,
        CreateStep::Publish => 28,
        CreateStep::RecordConfig => 29,
        CreateStep::PinManifest => 30,
        CreateStep::CheckWorkdir => 31,
        CreateStep::CompleteRestore => 32,
        CreateStep::Detach => 33,
        CreateStep::Created => 34,
        _ => 0,
    }
}

/// The step with a place in the order.
pub open spec fn step_at(rank: nat) -> CreateStep {
    if rank == 1 {
        CreateStep::Prepare
    } else if rank == 2 {
        CreateStep::CheckTarget
    } else if rank == 3 {
        CreateStep::ResolveEarly
    } else if rank == 4 {
        CreateStep::Finish
    } else if rank == 5 {
        CreateStep::PrepareRestore
    } else if rank == 6 {
        CreateStep::Validate
    } else if rank == 7 {
        CreateStep::CheckRuntime
    } else if rank == 8 {
        CreateStep::DecodeArchive
    } else if rank == 9 {
        CreateStep::TakeTurn
    } else if rank == 10 {
        CreateStep::PrepareTarget
    } else if rank == 11 {
        CreateStep::TakeLifecycle
    } else if rank == 12 {
        CreateStep::RecheckTarget
    } else if rank == 13 {
        CreateStep::PublishArchive
    } else if rank == 14 {
        CreateStep::ReserveBranch
    } else if rank == 15 {
        CreateStep::CaptureBranch
    } else if rank == 16 {
        CreateStep::MaterializeCheckpoint
    } else if rank == 17 {
        CreateStep::ResolveMounts
    } else if rank == 18 {
        CreateStep::CheckFork
    } else if rank == 19 {
        CreateStep::MaterializeFiles
    } else if rank == 20 {
        CreateStep::MaterializeOwned
    } else if rank == 21 {
        CreateStep::ResolveImage
    } else if rank == 22 {
        CreateStep::ProvisionRoot
    } else if rank == 23 {
        CreateStep::ApplyPatches
    } else if rank == 24 {
        CreateStep::EnsureVolumes
    } else if rank == 25 {
        CreateStep::PrepareVolumes
    } else if rank == 26 {
        CreateStep::InsertRecord
    } else if rank == 27 {
        CreateStep::Boot
    } else if rank == 28 {
        CreateStep::Publish
    } else if rank == 29 {
        CreateStep::RecordConfig
    } else if rank == 30 {
        CreateStep::PinManifest
    } else if rank == 31 {
        CreateStep::CheckWorkdir
    } else if rank == 32 {
        CreateStep::CompleteRestore
    } else if rank == 33 {
        CreateStep::Detach
    } else {
        CreateStep::Created
    }
}

/// Whether a creation takes a step.
pub open spec fn needed(step: CreateStep, plan: CreatePlan) -> bool {
    match step {
        CreateStep::CheckTarget => plan.early() && !plan.replace,
        CreateStep::ResolveEarly => plan.early(),
        CreateStep::PrepareRestore => plan.named_snapshot,
        CreateStep::DecodeArchive => plan.archive,
        CreateStep::PublishArchive => plan.archive,
        CreateStep::ReserveBranch => plan.branch,
        CreateStep::CaptureBranch => plan.branch,
        CreateStep::MaterializeCheckpoint => plan.checkpoint,
        CreateStep::MaterializeFiles => plan.files,
        CreateStep::MaterializeOwned => plan.owned_source,
        CreateStep::ResolveImage => plan.oci && !plan.early(),
        CreateStep::ProvisionRoot => plan.oci,
        CreateStep::ApplyPatches => !plan.oci && plan.patches,
        CreateStep::PinManifest => plan.oci,
        CreateStep::CheckWorkdir => plan.workdir,
        CreateStep::CompleteRestore => plan.restores,
        CreateStep::Detach => plan.detached,
        _ => true,
    }
}

/// The first step that a creation takes from a place on.
pub open spec fn next_needed(rank: nat, plan: CreatePlan) -> CreateStep
    decreases LAST_RANK - rank,
{
    if rank >= LAST_RANK || needed(step_at(rank), plan) {
        step_at(rank)
    } else {
        next_needed(rank + 1, plan)
    }
}

/// What the failure of a step leads to.
pub open spec fn after_failure(step: CreateStep) -> CreateStep {
    match step {
        CreateStep::PrepareVolumes => CreateStep::FinishOwned,
        CreateStep::InsertRecord => CreateStep::RollBackVolumes,
        CreateStep::Boot => CreateStep::RollBackStartup,
        CreateStep::Publish => CreateStep::LeaveToCleanup,
        CreateStep::RecordConfig => CreateStep::Terminate { rollback: false },
        CreateStep::PinManifest => CreateStep::Terminate { rollback: true },
        CreateStep::CheckWorkdir => CreateStep::Terminate { rollback: true },
        CreateStep::CompleteRestore => CreateStep::Terminate { rollback: false },
        CreateStep::Detach => CreateStep::LeaveToCleanup,
        _ => CreateStep::Failed,
    }
}

/// The step after an event. An event that the step does not expect changes nothing.
pub open spec fn create_next(step: CreateStep, event: CreateEvent, plan: CreatePlan) -> CreateStep {
    match step {
        CreateStep::Created => step,
        CreateStep::Failed => step,
        CreateStep::FailedUnclean => step,
        CreateStep::RollBackVolumes => if plan.owned_volumes {
            CreateStep::FinishOwned
        } else {
            CreateStep::Failed
        },
        CreateStep::Terminate { rollback } => if rollback {
            CreateStep::RollBackStartup
        } else {
            CreateStep::FinishOwned
        },
        CreateStep::RollBackStartup => if event == CreateEvent::Done {
            CreateStep::FinishOwned
        } else if event == CreateEvent::Failed {
            CreateStep::FailedUnclean
        } else {
            step
        },
        CreateStep::FinishOwned => CreateStep::Failed,
        CreateStep::LeaveToCleanup => CreateStep::Failed,
        _ => match event {
            CreateEvent::Done => next_needed(rank(step) + 1, plan),
            CreateEvent::Failed => after_failure(step),
            CreateEvent::Lost => if step == CreateStep::Publish {
                CreateStep::Terminate { rollback: false }
            } else {
                step
            },
        },
    }
}

/// Who removes the storage after an event.
pub open spec fn storage_next(
    storage: Storage,
    step: CreateStep,
    event: CreateEvent,
    plan: CreatePlan,
) -> Storage {
    let next = create_next(step, event, plan);
    if event == CreateEvent::Done && step == CreateStep::InsertRecord {
        Storage::Recorded
    } else if event == CreateEvent::Done && step == CreateStep::EnsureVolumes && plan.owned_volumes
        && storage == Storage::Staged {
        Storage::Cleanup
    } else if event == CreateEvent::Done && (step == CreateStep::PublishArchive || step
        == CreateStep::ReserveBranch || next == CreateStep::MaterializeCheckpoint || next
        == CreateStep::MaterializeFiles) {
        Storage::Staged
    } else {
        storage
    }
}

/// A creation on its way.
#[derive(Clone, Copy, Debug, PartialEq, Eq, Structural)]
pub struct Creation {
    pub step: CreateStep,
    pub storage: Storage,
}

/// Whether a step is taken, given the plan.
fn is_needed(step: CreateStep, plan: CreatePlan) -> (r: bool)
    ensures
        r == needed(step, plan),
{
    let early = !plan.restoring && plan.oci_requested;
    match step {
        CreateStep::CheckTarget => early && !plan.replace,
        CreateStep::ResolveEarly => early,
        CreateStep::PrepareRestore => plan.named_snapshot,
        CreateStep::DecodeArchive => plan.archive,
        CreateStep::PublishArchive => plan.archive,
        CreateStep::ReserveBranch => plan.branch,
        CreateStep::CaptureBranch => plan.branch,
        CreateStep::MaterializeCheckpoint => plan.checkpoint,
        CreateStep::MaterializeFiles => plan.files,
        CreateStep::MaterializeOwned => plan.owned_source,
        CreateStep::ResolveImage => plan.oci && !early,
        CreateStep::ProvisionRoot => plan.oci,
        CreateStep::ApplyPatches => !plan.oci && plan.patches,
        CreateStep::PinManifest => plan.oci,
        CreateStep::CheckWorkdir => plan.workdir,
        CreateStep::CompleteRestore => plan.restores,
        CreateStep::Detach => plan.detached,
        _ => true,
    }
}

/// The place of a step.
fn rank_of(step: CreateStep) -> (r: u32)
    ensures
        r == rank(step),
{
    match step {
        CreateStep::Prepare => 1,
        CreateStep::CheckTarget => 2,
        CreateStep::ResolveEarly => 3,
        CreateStep::Finish => 4,
        CreateStep::PrepareRestore => 5,
        CreateStep::Validate => 6,
        CreateStep::CheckRuntime => 7,
        CreateStep::DecodeArchive => 8,
        CreateStep::TakeTurn => 9,
        CreateStep::PrepareTarget => 10,
        CreateStep::TakeLifecycle => 11,
        CreateStep::RecheckTarget => 12,
        CreateStep::PublishArchive => 13,
        CreateStep::ReserveBranch => 14,
        CreateStep::CaptureBranch => 15,
        CreateStep::MaterializeCheckpoint => 16,
        CreateStep::ResolveMounts => 17,
        CreateStep::CheckFork => 18,
        CreateStep::MaterializeFiles => 19,
        CreateStep::MaterializeOwned => 20,
        CreateStep::ResolveImage => 21,
        CreateStep::ProvisionRoot => 22,
        CreateStep::ApplyPatches => 23,
        CreateStep::EnsureVolumes => 24,
        CreateStep::PrepareVolumes => 25,
        CreateStep::InsertRecord => 26,
        CreateStep::Boot => 27,
        CreateStep::Publish => 28,
        CreateStep::RecordConfig => 29,
        CreateStep::PinManifest => 30,
        CreateStep::CheckWorkdir => 31,
        CreateStep::CompleteRestore => 32,
        CreateStep::Detach => 33,
        CreateStep::Created => 34,
        _ => 0,
    }
}

/// The step with a place.
fn step_with_rank(rank: u32) -> (r: CreateStep)
    ensures
        r == step_at(rank as nat),
{
    match rank {
        1 => CreateStep::Prepare,
        2 => CreateStep::CheckTarget,
        3 => CreateStep::ResolveEarly,
        4 => CreateStep::Finish,
        5 => CreateStep::PrepareRestore,
        6 => CreateStep::Validate,
        7 => CreateStep::CheckRuntime,
        8 => CreateStep::DecodeArchive,
        9 => CreateStep::TakeTurn,
        10 => CreateStep::PrepareTarget,
        11 => CreateStep::TakeLifecycle,
        12 => CreateStep::RecheckTarget,
        13 => CreateStep::PublishArchive,
        14 => CreateStep::ReserveBranch,
        15 => CreateStep::CaptureBranch,
        16 => CreateStep::MaterializeCheckpoint,
        17 => CreateStep::ResolveMounts,
        18 => CreateStep::CheckFork,
        19 => CreateStep::MaterializeFiles,
        20 => CreateStep::MaterializeOwned,
        21 => CreateStep::ResolveImage,
        22 => CreateStep::ProvisionRoot,
        23 => CreateStep::ApplyPatches,
        24 => CreateStep::EnsureVolumes,
        25 => CreateStep::PrepareVolumes,
        26 => CreateStep::InsertRecord,
        27 => CreateStep::Boot,
        28 => CreateStep::Publish,
        29 => CreateStep::RecordConfig,
        30 => CreateStep::PinManifest,
        31 => CreateStep::CheckWorkdir,
        32 => CreateStep::CompleteRestore,
        33 => CreateStep::Detach,
        _ => CreateStep::Created,
    }
}

impl Creation {
    /// A creation that has not begun.
    pub fn new() -> (r: Creation)
        ensures
            r == (Creation { step: CreateStep::Prepare, storage: Storage::Absent }),
    {
        Creation { step: CreateStep::Prepare, storage: Storage::Absent }
    }

    /// The step after the present one, where nothing fails.
    fn following(self, plan: CreatePlan) -> (r: CreateStep)
        ensures
            r == next_needed(rank(self.step) + 1, plan),
    {
        let mut place: u32 = rank_of(self.step) + 1;
        let mut step = step_with_rank(place);
        while place < LAST_RANK && !is_needed(step, plan)
            invariant
                step == step_at(place as nat),
                next_needed(rank(self.step) + 1, plan) == next_needed(place as nat, plan),
            decreases LAST_RANK - place,
        {
            place = place + 1;
            step = step_with_rank(place);
        }
        step
    }

    /// Takes an event into account.
    pub fn advance(self, event: CreateEvent, plan: CreatePlan) -> (r: Creation)
        ensures
            r.step == create_next(self.step, event, plan),
            r.storage == storage_next(self.storage, self.step, event, plan),
    {
        let step = self.step;
        let next = match step {
            CreateStep::Created => step,
            CreateStep::Failed => step,
            CreateStep::FailedUnclean => step,
            CreateStep::RollBackVolumes => {
                if plan.owned_volumes {
                    CreateStep::FinishOwned
                } else {
                    CreateStep::Failed
                }
            },
            CreateStep::Terminate { rollback } => {
                if rollback {
                    CreateStep::RollBackStartup
                } else {
                    CreateStep::FinishOwned
                }
            },
            CreateStep::RollBackStartup => match event {
                CreateEvent::Done => CreateStep::FinishOwned,
                CreateEvent::Failed => CreateStep::FailedUnclean,
                CreateEvent::Lost => step,
            },
            CreateStep::FinishOwned => CreateStep::Failed,
            CreateStep::LeaveToCleanup => CreateStep::Failed,
            _ => match event {
                CreateEvent::Done => self.following(plan),
                CreateEvent::Failed => match step {
                    CreateStep::PrepareVolumes => CreateStep::FinishOwned,
                    CreateStep::InsertRecord => CreateStep::RollBackVolumes,
                    CreateStep::Boot => CreateStep::RollBackStartup,
                    CreateStep::Publish => CreateStep::LeaveToCleanup,
                    CreateStep::RecordConfig => CreateStep::Terminate { rollback: false },
                    CreateStep::PinManifest => CreateStep::Terminate { rollback: true },
                    CreateStep::CheckWorkdir => CreateStep::Terminate { rollback: true },
                    CreateStep::CompleteRestore => CreateStep::Terminate { rollback: false },
                    CreateStep::Detach => CreateStep::LeaveToCleanup,
                    _ => CreateStep::Failed,
                },
                CreateEvent::Lost => {
                    if step == CreateStep::Publish {
                        CreateStep::Terminate { rollback: false }
                    } else {
                        step
                    }
                },
            },
        };
        let storage = if event != CreateEvent::Done {
            self.storage
        } else if step == CreateStep::InsertRecord {
            Storage::Recorded
        } else if step == CreateStep::EnsureVolumes && plan.owned_volumes && self.storage
            == Storage::Staged {
            Storage::Cleanup
        } else if step == CreateStep::PublishArchive || step == CreateStep::ReserveBranch || next
            == CreateStep::MaterializeCheckpoint || next == CreateStep::MaterializeFiles {
            Storage::Staged
        } else {
            self.storage
        };
        Creation { step: next, storage }
    }
}

/// Where a list of events leads a creation. Each event comes with the plan as it was known then.
pub open spec fn create_run(run: Seq<(CreateEvent, CreatePlan)>) -> Creation
    decreases run.len(),
{
    if run.len() == 0 {
        Creation { step: CreateStep::Prepare, storage: Storage::Absent }
    } else {
        let before = create_run(run.drop_last());
        let (event, plan) = run.last();
        Creation {
            step: create_next(before.step, event, plan),
            storage: storage_next(before.storage, before.step, event, plan),
        }
    }
}

/// Whether a step was done.
pub open spec fn did(run: Seq<(CreateEvent, CreatePlan)>, step: CreateStep) -> bool {
    exists|n: int|
        0 <= n < run.len() && #[trigger] create_run(run.take(n)).step == step && run[n].0
            == CreateEvent::Done
}

/// Whether a step was come to.
pub open spec fn came_to(run: Seq<(CreateEvent, CreatePlan)>, step: CreateStep) -> bool {
    exists|n: int| 0 <= n <= run.len() && #[trigger] create_run(run.take(n)).step == step
}

/// Whether the plans of a run agree with `plan` on a step from the event on that came to the step
/// or passed it by. What they said of the step before that was not read.
pub open spec fn agree_on(
    run: Seq<(CreateEvent, CreatePlan)>,
    plan: CreatePlan,
    step: CreateStep,
) -> bool {
    forall|n: int|
        0 < n <= run.len() && rank(step) <= rank((#[trigger] create_run(run.take(n))).step)
            ==> needed(step, run[n - 1].1) == needed(step, plan)
}

/// Whether the plans of a run agree with `plan` on every step once it was read.
pub open spec fn follows(run: Seq<(CreateEvent, CreatePlan)>, plan: CreatePlan) -> bool {
    forall|step: CreateStep| #[trigger] agree_on(run, plan, step)
}

/// A run whose plan never changes follows it.
pub proof fn unchanged_plans_are_followed(run: Seq<(CreateEvent, CreatePlan)>, plan: CreatePlan)
    requires
        forall|n: int| 0 <= n < run.len() ==> (#[trigger] run[n]).1 == plan,
    ensures
        follows(run, plan),
{
}

/// A field may change until it is first read: a plan that differs only in what it says of steps
/// that the run has not come to yet is followed as well.
pub proof fn unread_fields_may_change(
    run: Seq<(CreateEvent, CreatePlan)>,
    plan: CreatePlan,
    known: CreatePlan,
)
    requires
        follows(run, plan),
        forall|step: CreateStep, n: int|
            0 < n <= run.len() && rank(step) <= rank((#[trigger] create_run(run.take(n))).step)
                ==> #[trigger] needed(step, plan) == needed(step, known),
    ensures
        follows(run, known),
{
    assert forall|step: CreateStep| #[trigger] agree_on(run, known, step) by {
        assert(agree_on(run, plan, step));
        assert forall|n: int|
            0 < n <= run.len() && rank(step) <= rank(
                (#[trigger] create_run(run.take(n))).step,
            ) implies needed(step, run[n - 1].1) == needed(step, known) by {
            assert(needed(step, plan) == needed(step, known));
        }
    }
}

proof fn lemma_did(run: Seq<(CreateEvent, CreatePlan)>, step: CreateStep)
    requires
        run.len() > 0,
    ensures
        did(run, step) == (did(run.drop_last(), step) || (create_run(
            run.drop_last(),
        ).step == step && run.last().0 == CreateEvent::Done)),
{
    let before = run.drop_last();
    let last = run.len() - 1;
    assert(run.take(last) =~= before);
    if did(run, step) {
        let n = choose|n: int|
            0 <= n < run.len() && #[trigger] create_run(run.take(n)).step == step
                && run[n].0 == CreateEvent::Done;
        if n < last {
            assert(before.take(n) =~= run.take(n));
            assert(create_run(before.take(n)).step == step && before[n].0
                == CreateEvent::Done);
        }
    }
    if did(before, step) {
        let n = choose|n: int|
            0 <= n < before.len() && #[trigger] create_run(before.take(n)).step == step
                && before[n].0 == CreateEvent::Done;
        assert(before.take(n) =~= run.take(n));
        assert(create_run(run.take(n)).step == step && run[n].0 == CreateEvent::Done);
    }
    if create_run(before).step == step && run.last().0 == CreateEvent::Done {
        assert(create_run(run.take(last)).step == step && run[last].0
            == CreateEvent::Done);
    }
}

proof fn lemma_came_to(run: Seq<(CreateEvent, CreatePlan)>, step: CreateStep)
    ensures
        run.len() > 0 && came_to(run.drop_last(), step) ==> came_to(run, step),
        create_run(run).step == step ==> came_to(run, step),
{
    assert(run.take(run.len() as int) =~= run);
    if run.len() > 0 {
        let before = run.drop_last();
        if came_to(before, step) {
            let n = choose|n: int|
                0 <= n <= before.len() && #[trigger] create_run(before.take(n)).step == step;
            assert(before.take(n) =~= run.take(n));
            assert(create_run(run.take(n)).step == step);
        }
    }
}

/// Nothing that is needed is skipped, and nothing comes before its place.
proof fn lemma_next_needed(from: nat, plan: CreatePlan)
    requires
        1 <= from,
    ensures
        ({
            let next = next_needed(from, plan);
            &&& rank(next) >= from || next == CreateStep::Created
            &&& needed(next, plan)
            &&& rank(next) > 0
            &&& forall|t: CreateStep|
                #![trigger rank(t)]
                from <= rank(t) < rank(next) ==> !needed(t, plan)
        }),
    decreases LAST_RANK - from,
{
    if from < LAST_RANK && !needed(step_at(from), plan) {
        lemma_next_needed(from + 1, plan);
        assert forall|t: CreateStep|
            #![trigger rank(t)]
            from <= rank(t) < rank(next_needed(from, plan)) implies !needed(t, plan) by {
            if rank(t) == from {
                assert(t == step_at(from));
            }
        }
    }
}

/// A creation goes on by finishing a step, stays, or fails.
proof fn lemma_forward(step: CreateStep, event: CreateEvent, plan: CreatePlan)
    ensures
        ({
            let next = create_next(step, event, plan);
            rank(next) == 0 || next == step || (event == CreateEvent::Done && rank(step) > 0 && step
                != CreateStep::Created && next == next_needed(rank(step) + 1, plan))
        }),
{
}

/// No two steps have the same place.
proof fn lemma_places(a: CreateStep, b: CreateStep)
    requires
        rank(a) == rank(b) > 0,
    ensures
        a == b,
{
}

/// Everything that a creation needs is done in its order: a step is come to only once every step
/// before it that the creation needs was done.
pub proof fn nothing_is_skipped(
    run: Seq<(CreateEvent, CreatePlan)>,
    plan: CreatePlan,
    step: CreateStep,
)
    requires
        0 < rank(step) < rank(create_run(run).step),
        needed(step, plan),
        agree_on(run, plan, step),
    ensures
        did(run, step),
    decreases run.len(),
{
    if run.len() > 0 {
        let before = run.drop_last();
        let at = create_run(before).step;
        let (event, known) = run.last();
        lemma_did(run, step);
        lemma_forward(at, event, known);
        assert(run.take(run.len() as int) =~= run);
        if rank(at) > rank(step) {
            assert forall|n: int|
                0 < n <= before.len() && rank(step) <= rank(
                    (#[trigger] create_run(before.take(n))).step,
                ) implies needed(step, before[n - 1].1) == needed(step, plan) by {
                assert(before.take(n) =~= run.take(n));
            }
            nothing_is_skipped(before, plan, step);
        } else if rank(at) == rank(step) {
            lemma_places(at, step);
        } else {
            lemma_next_needed(rank(at) + 1, known);
            assert(needed(step, known) == needed(step, plan));
        }
    }
}

/// How far a creation is from its end.
pub open spec fn steps_left(step: CreateStep) -> nat {
    match step {
        CreateStep::Created => 0,
        CreateStep::Failed => 0,
        CreateStep::FailedUnclean => 0,
        CreateStep::FinishOwned => 1,
        CreateStep::LeaveToCleanup => 1,
        CreateStep::RollBackStartup => 2,
        CreateStep::RollBackVolumes => 2,
        CreateStep::Terminate { rollback } => 3,
        _ => (4 + LAST_RANK - rank(step)) as nat,
    }
}

/// Every creation comes to an end: each step that is left brings it closer.
pub proof fn creations_come_to_an_end(step: CreateStep, event: CreateEvent, plan: CreatePlan)
    ensures
        create_next(step, event, plan) == step || steps_left(create_next(step, event, plan))
            < steps_left(step),
{
    lemma_forward(step, event, plan);
    if rank(step) > 0 && step != CreateStep::Created {
        lemma_next_needed(rank(step) + 1, plan);
    }
}

/// What holds the name is stopped or removed only once the whole request was checked, and an
/// archive was unpacked and checked too.
pub proof fn requests_are_checked_before_anything_is_replaced(
    run: Seq<(CreateEvent, CreatePlan)>,
    plan: CreatePlan,
)
    requires
        create_run(run).step == CreateStep::PrepareTarget,
        follows(run, plan),
    ensures
        did(run, CreateStep::Validate),
        did(run, CreateStep::CheckRuntime),
        did(run, CreateStep::TakeTurn),
        plan.archive ==> did(run, CreateStep::DecodeArchive),
        plan.early() ==> did(run, CreateStep::ResolveEarly),
        plan.early() && !plan.replace ==> did(run, CreateStep::CheckTarget),
{
    lemma_done(run, plan, CreateStep::Validate);
    lemma_done(run, plan, CreateStep::CheckRuntime);
    lemma_done(run, plan, CreateStep::TakeTurn);
    lemma_done(run, plan, CreateStep::DecodeArchive);
    lemma_done(run, plan, CreateStep::ResolveEarly);
    lemma_done(run, plan, CreateStep::CheckTarget);
}

proof fn lemma_done(run: Seq<(CreateEvent, CreatePlan)>, plan: CreatePlan, step: CreateStep)
    requires
        0 < rank(step) < rank(create_run(run).step),
        follows(run, plan),
    ensures
        needed(step, plan) ==> did(run, step),
{
    assert(agree_on(run, plan, step));
    if needed(step, plan) {
        nothing_is_skipped(run, plan, step);
    }
}

/// A sandbox that was created is recorded, has booted, was published, and has a record of what it
/// runs; where it applies, its manifest is pinned, its working directory was checked and its
/// restore has completed.
pub proof fn created_means_complete(run: Seq<(CreateEvent, CreatePlan)>, plan: CreatePlan)
    requires
        create_run(run).step == CreateStep::Created,
        follows(run, plan),
    ensures
        did(run, CreateStep::RecheckTarget),
        did(run, CreateStep::CheckFork),
        did(run, CreateStep::EnsureVolumes),
        did(run, CreateStep::InsertRecord),
        did(run, CreateStep::Boot),
        did(run, CreateStep::Publish),
        did(run, CreateStep::RecordConfig),
        plan.oci ==> did(run, CreateStep::ProvisionRoot) && did(run, CreateStep::PinManifest),
        plan.workdir ==> did(run, CreateStep::CheckWorkdir),
        plan.restores ==> did(run, CreateStep::CompleteRestore),
        plan.detached ==> did(run, CreateStep::Detach),
{
    lemma_done(run, plan, CreateStep::RecheckTarget);
    lemma_done(run, plan, CreateStep::CheckFork);
    lemma_done(run, plan, CreateStep::EnsureVolumes);
    lemma_done(run, plan, CreateStep::InsertRecord);
    lemma_done(run, plan, CreateStep::Boot);
    lemma_done(run, plan, CreateStep::Publish);
    lemma_done(run, plan, CreateStep::RecordConfig);
    lemma_done(run, plan, CreateStep::ProvisionRoot);
    lemma_done(run, plan, CreateStep::PinManifest);
    lemma_done(run, plan, CreateStep::CheckWorkdir);
    lemma_done(run, plan, CreateStep::CompleteRestore);
    lemma_done(run, plan, CreateStep::Detach);
}

/// Where a creation stands once the sandbox is recorded.
spec fn is_recorded_step(step: CreateStep) -> bool {
    rank(step) > rank(CreateStep::InsertRecord) || step is Terminate || step
        == CreateStep::RollBackStartup || step == CreateStep::LeaveToCleanup || step
        == CreateStep::FailedUnclean
}

proof fn lemma_storage(run: Seq<(CreateEvent, CreatePlan)>)
    ensures
        ({
            let now = create_run(run);
            &&& did(run, CreateStep::InsertRecord) <==> now.storage == Storage::Recorded
            &&& is_recorded_step(now.step) ==> now.storage == Storage::Recorded
            &&& now.storage == Storage::Recorded ==> is_recorded_step(now.step) || now.step
                == CreateStep::FinishOwned || now.step == CreateStep::Failed
        }),
    decreases run.len(),
{
    if run.len() > 0 {
        let before = run.drop_last();
        let at = create_run(before).step;
        lemma_storage(before);
        lemma_did(run, CreateStep::InsertRecord);
        if rank(at) > 0 && at != CreateStep::Created {
            lemma_next_needed(rank(at) + 1, run.last().1);
        }
        if at == CreateStep::InsertRecord {
            assert(next_needed(27, run.last().1) == CreateStep::Boot);
        }
    }
}

/// Storage that a record owns is never removed with the stage: from the moment the sandbox is
/// recorded its storage belongs to the record, and not before.
pub proof fn recorded_storage_stays(run: Seq<(CreateEvent, CreatePlan)>)
    ensures
        did(run, CreateStep::InsertRecord) <==> create_run(run).storage
            == Storage::Recorded,
{
    lemma_storage(run);
}

/// What was taken down once a sandbox had booted.
spec fn process_owned(run: Seq<(CreateEvent, CreatePlan)>) -> bool {
    came_to(run, CreateStep::Terminate { rollback: true }) || came_to(
        run,
        CreateStep::Terminate { rollback: false },
    ) || came_to(run, CreateStep::LeaveToCleanup)
}

proof fn lemma_process(run: Seq<(CreateEvent, CreatePlan)>)
    ensures
        did(run, CreateStep::Boot) ==> process_owned(run) || rank(
            create_run(run).step,
        ) > rank(CreateStep::Boot),
        rank(create_run(run).step) > 0 && rank(create_run(run).step) <= rank(
            CreateStep::Boot,
        ) ==> !did(run, CreateStep::Boot),
    decreases run.len(),
{
    if run.len() > 0 {
        let before = run.drop_last();
        let at = create_run(before).step;
        lemma_process(before);
        lemma_did(run, CreateStep::Boot);
        lemma_came_to(run, CreateStep::Terminate { rollback: true });
        lemma_came_to(run, CreateStep::Terminate { rollback: false });
        lemma_came_to(run, CreateStep::LeaveToCleanup);
        if rank(at) > 0 && at != CreateStep::Created {
            lemma_next_needed(rank(at) + 1, run.last().1);
        }
    }
}

/// A creation that fails after its sandbox has booted terminates the process, or leaves it to the
/// cleanup that owns it.
pub proof fn failed_creations_leave_no_process(run: Seq<(CreateEvent, CreatePlan)>)
    requires
        create_run(run).step == CreateStep::Failed || create_run(run).step
            == CreateStep::FailedUnclean,
        did(run, CreateStep::Boot),
    ensures
        came_to(run, CreateStep::Terminate { rollback: true }) || came_to(
            run,
            CreateStep::Terminate { rollback: false },
        ) || came_to(run, CreateStep::LeaveToCleanup),
{
    lemma_process(run);
}

/// Whether a run has the same plan throughout.
pub open spec fn planned(run: Seq<(CreateEvent, CreatePlan)>, plan: CreatePlan) -> bool {
    forall|n: int| 0 <= n < run.len() ==> (#[trigger] run[n]).1 == plan
}

proof fn lemma_was_done(run: Seq<(CreateEvent, CreatePlan)>, step: CreateStep)
    requires
        0 < rank(step) < rank(create_run(run).step),
        forall|plan: CreatePlan| #[trigger] needed(step, plan),
    ensures
        did(run, step),
{
    let plan = run.last().1;
    assert(agree_on(run, plan, step));
    nothing_is_skipped(run, plan, step);
}

/// Whatever the plan, a creation comes to a step only once what must be done before it was done:
/// the request is read, completed and checked before the name is touched, the name is made free and
/// locked and seen to be free before anything is brought in, and nothing boots that is not recorded
/// with all of its volumes.
pub proof fn creations_keep_their_order(run: Seq<(CreateEvent, CreatePlan)>)
    ensures
        match create_run(run).step {
            CreateStep::CheckTarget => did(run, CreateStep::Prepare),
            CreateStep::ResolveEarly => did(run, CreateStep::Prepare),
            CreateStep::Finish => did(run, CreateStep::Prepare),
            CreateStep::PrepareRestore => did(run, CreateStep::Finish),
            CreateStep::Validate => did(run, CreateStep::Finish),
            CreateStep::CheckRuntime => did(run, CreateStep::Validate),
            CreateStep::DecodeArchive => did(run, CreateStep::CheckRuntime),
            CreateStep::TakeTurn => did(run, CreateStep::CheckRuntime),
            CreateStep::PrepareTarget => did(run, CreateStep::TakeTurn),
            CreateStep::TakeLifecycle => did(run, CreateStep::PrepareTarget),
            CreateStep::RecheckTarget => did(run, CreateStep::TakeLifecycle) && did(
                run,
                CreateStep::PrepareTarget,
            ),
            CreateStep::PublishArchive => did(run, CreateStep::RecheckTarget),
            CreateStep::ReserveBranch => did(run, CreateStep::RecheckTarget),
            CreateStep::CaptureBranch => did(run, CreateStep::RecheckTarget),
            CreateStep::MaterializeCheckpoint => did(run, CreateStep::RecheckTarget),
            CreateStep::ResolveMounts => did(run, CreateStep::RecheckTarget),
            CreateStep::CheckFork => did(run, CreateStep::ResolveMounts),
            CreateStep::MaterializeFiles => did(run, CreateStep::CheckFork),
            CreateStep::MaterializeOwned => did(run, CreateStep::CheckFork),
            CreateStep::ResolveImage => did(run, CreateStep::CheckFork),
            CreateStep::ProvisionRoot => did(run, CreateStep::CheckFork),
            CreateStep::ApplyPatches => did(run, CreateStep::CheckFork),
            CreateStep::EnsureVolumes => did(run, CreateStep::CheckFork),
            CreateStep::PrepareVolumes => did(run, CreateStep::EnsureVolumes),
            CreateStep::InsertRecord => did(run, CreateStep::PrepareVolumes),
            CreateStep::Boot => did(run, CreateStep::InsertRecord),
            CreateStep::Publish => did(run, CreateStep::Boot),
            CreateStep::RecordConfig => did(run, CreateStep::Publish),
            CreateStep::PinManifest => did(run, CreateStep::RecordConfig),
            CreateStep::CheckWorkdir => did(run, CreateStep::RecordConfig),
            CreateStep::CompleteRestore => did(run, CreateStep::RecordConfig),
            CreateStep::Detach => did(run, CreateStep::RecordConfig),
            CreateStep::Created => {
                &&& did(run, CreateStep::Prepare) && did(run, CreateStep::Finish)
                &&& did(run, CreateStep::Validate) && did(run, CreateStep::CheckRuntime)
                &&& did(run, CreateStep::TakeTurn) && did(run, CreateStep::PrepareTarget)
                &&& did(run, CreateStep::TakeLifecycle) && did(run, CreateStep::RecheckTarget)
                &&& did(run, CreateStep::ResolveMounts) && did(run, CreateStep::CheckFork)
                &&& did(run, CreateStep::EnsureVolumes) && did(run, CreateStep::PrepareVolumes)
                &&& did(run, CreateStep::InsertRecord) && did(run, CreateStep::Boot)
                &&& did(run, CreateStep::Publish) && did(run, CreateStep::RecordConfig)
            },
            _ => true,
        },
{
    let at = create_run(run).step;
    if rank(at) > rank(CreateStep::Prepare) {
        lemma_was_done(run, CreateStep::Prepare);
    }
    if rank(at) > rank(CreateStep::Finish) {
        lemma_was_done(run, CreateStep::Finish);
    }
    if rank(at) > rank(CreateStep::Validate) {
        lemma_was_done(run, CreateStep::Validate);
    }
    if rank(at) > rank(CreateStep::CheckRuntime) {
        lemma_was_done(run, CreateStep::CheckRuntime);
    }
    if rank(at) > rank(CreateStep::TakeTurn) {
        lemma_was_done(run, CreateStep::TakeTurn);
    }
    if rank(at) > rank(CreateStep::PrepareTarget) {
        lemma_was_done(run, CreateStep::PrepareTarget);
    }
    if rank(at) > rank(CreateStep::TakeLifecycle) {
        lemma_was_done(run, CreateStep::TakeLifecycle);
    }
    if rank(at) > rank(CreateStep::RecheckTarget) {
        lemma_was_done(run, CreateStep::RecheckTarget);
    }
    if rank(at) > rank(CreateStep::ResolveMounts) {
        lemma_was_done(run, CreateStep::ResolveMounts);
    }
    if rank(at) > rank(CreateStep::CheckFork) {
        lemma_was_done(run, CreateStep::CheckFork);
    }
    if rank(at) > rank(CreateStep::EnsureVolumes) {
        lemma_was_done(run, CreateStep::EnsureVolumes);
    }
    if rank(at) > rank(CreateStep::PrepareVolumes) {
        lemma_was_done(run, CreateStep::PrepareVolumes);
    }
    if rank(at) > rank(CreateStep::InsertRecord) {
        lemma_was_done(run, CreateStep::InsertRecord);
    }
    if rank(at) > rank(CreateStep::Boot) {
        lemma_was_done(run, CreateStep::Boot);
    }
    if rank(at) > rank(CreateStep::Publish) {
        lemma_was_done(run, CreateStep::Publish);
    }
    if rank(at) > rank(CreateStep::RecordConfig) {
        lemma_was_done(run, CreateStep::RecordConfig);
    }
}

proof fn lemma_unneeded(run: Seq<(CreateEvent, CreatePlan)>, plan: CreatePlan, step: CreateStep)
    requires
        planned(run, plan),
        !needed(step, plan),
        rank(step) > 1,
    ensures
        create_run(run).step != step,
        !did(run, step),
    decreases run.len(),
{
    if run.len() > 0 {
        let before = run.drop_last();
        assert(planned(before, plan)) by {
            assert forall|n: int| 0 <= n < before.len() implies (#[trigger] before[n]).1 == plan by {
                assert(run[n].1 == plan);
            }
        }
        lemma_unneeded(before, plan, step);
        lemma_did(run, step);
        assert(run[run.len() - 1].1 == plan);
        let at = create_run(before).step;
        lemma_forward(at, run.last().0, plan);
        if rank(at) > 0 && at != CreateStep::Created {
            lemma_next_needed(rank(at) + 1, plan);
        }
    }
}

proof fn lemma_done_iff(run: Seq<(CreateEvent, CreatePlan)>, plan: CreatePlan, step: CreateStep)
    requires
        planned(run, plan),
        1 < rank(step) < rank(create_run(run).step),
    ensures
        did(run, step) <==> needed(step, plan),
{
    unchanged_plans_are_followed(run, plan);
    if needed(step, plan) {
        lemma_done(run, plan, step);
    } else {
        lemma_unneeded(run, plan, step);
    }
}

/// A sandbox that was created got all that its plan asks for and nothing else: an image where it
/// boots one, the files of what it continues from, its patches, its checks, its release.
pub proof fn creations_do_what_is_asked(run: Seq<(CreateEvent, CreatePlan)>, plan: CreatePlan)
    requires
        planned(run, plan),
        create_run(run).step == CreateStep::Created,
    ensures
        did(run, CreateStep::CheckTarget) <==> !plan.restoring && plan.oci_requested
            && !plan.replace,
        did(run, CreateStep::ResolveEarly) <==> !plan.restoring && plan.oci_requested,
        did(run, CreateStep::PrepareRestore) <==> plan.named_snapshot,
        did(run, CreateStep::DecodeArchive) <==> plan.archive,
        did(run, CreateStep::PublishArchive) <==> plan.archive,
        did(run, CreateStep::ReserveBranch) <==> plan.branch,
        did(run, CreateStep::CaptureBranch) <==> plan.branch,
        did(run, CreateStep::MaterializeCheckpoint) <==> plan.checkpoint,
        did(run, CreateStep::MaterializeFiles) <==> plan.files,
        did(run, CreateStep::MaterializeOwned) <==> plan.owned_source,
        did(run, CreateStep::ResolveImage) <==> plan.oci && (plan.restoring
            || !plan.oci_requested),
        did(run, CreateStep::ProvisionRoot) <==> plan.oci,
        did(run, CreateStep::ApplyPatches) <==> !plan.oci && plan.patches,
        did(run, CreateStep::PinManifest) <==> plan.oci,
        did(run, CreateStep::CheckWorkdir) <==> plan.workdir,
        did(run, CreateStep::CompleteRestore) <==> plan.restores,
        did(run, CreateStep::Detach) <==> plan.detached,
{
    lemma_done_iff(run, plan, CreateStep::CheckTarget);
    lemma_done_iff(run, plan, CreateStep::ResolveEarly);
    lemma_done_iff(run, plan, CreateStep::PrepareRestore);
    lemma_done_iff(run, plan, CreateStep::DecodeArchive);
    lemma_done_iff(run, plan, CreateStep::PublishArchive);
    lemma_done_iff(run, plan, CreateStep::ReserveBranch);
    lemma_done_iff(run, plan, CreateStep::CaptureBranch);
    lemma_done_iff(run, plan, CreateStep::MaterializeCheckpoint);
    lemma_done_iff(run, plan, CreateStep::MaterializeFiles);
    lemma_done_iff(run, plan, CreateStep::MaterializeOwned);
    lemma_done_iff(run, plan, CreateStep::ResolveImage);
    lemma_done_iff(run, plan, CreateStep::ProvisionRoot);
    lemma_done_iff(run, plan, CreateStep::ApplyPatches);
    lemma_done_iff(run, plan, CreateStep::PinManifest);
    lemma_done_iff(run, plan, CreateStep::CheckWorkdir);
    lemma_done_iff(run, plan, CreateStep::CompleteRestore);
    lemma_done_iff(run, plan, CreateStep::Detach);
}

/// Within what a plan asks for, the order is fixed too: a name is seen to be free before an image
/// is resolved for it, an archive is unpacked before the name is touched, a branch has its
/// directory before it is captured, a root is made only from a resolved image, and a working
/// directory is checked only once the manifest is pinned.
pub proof fn what_is_asked_keeps_its_order(run: Seq<(CreateEvent, CreatePlan)>, plan: CreatePlan)
    requires
        planned(run, plan),
    ensures
        match create_run(run).step {
            CreateStep::ResolveEarly => plan.replace || did(run, CreateStep::CheckTarget),
            CreateStep::Finish => plan.restoring || !plan.oci_requested || did(
                run,
                CreateStep::ResolveEarly,
            ),
            CreateStep::Validate => plan.named_snapshot ==> did(run, CreateStep::PrepareRestore),
            CreateStep::TakeTurn => plan.archive ==> did(run, CreateStep::DecodeArchive),
            CreateStep::CaptureBranch => did(run, CreateStep::ReserveBranch),
            CreateStep::ResolveMounts => {
                &&& plan.archive ==> did(run, CreateStep::PublishArchive)
                &&& plan.branch ==> did(run, CreateStep::CaptureBranch)
                &&& plan.checkpoint ==> did(run, CreateStep::MaterializeCheckpoint)
            },
            CreateStep::ResolveImage => {
                &&& plan.files ==> did(run, CreateStep::MaterializeFiles)
                &&& plan.owned_source ==> did(run, CreateStep::MaterializeOwned)
            },
            CreateStep::ProvisionRoot => {
                &&& did(run, CreateStep::ResolveEarly) || did(run, CreateStep::ResolveImage)
                &&& plan.files ==> did(run, CreateStep::MaterializeFiles)
                &&& plan.owned_source ==> did(run, CreateStep::MaterializeOwned)
            },
            CreateStep::EnsureVolumes => {
                &&& plan.oci ==> did(run, CreateStep::ProvisionRoot)
                &&& !plan.oci && plan.patches ==> did(run, CreateStep::ApplyPatches)
                &&& plan.owned_source ==> did(run, CreateStep::MaterializeOwned)
            },
            CreateStep::CheckWorkdir => plan.oci ==> did(run, CreateStep::PinManifest),
            CreateStep::CompleteRestore => plan.workdir ==> did(run, CreateStep::CheckWorkdir),
            CreateStep::Detach => {
                &&& plan.oci ==> did(run, CreateStep::PinManifest)
                &&& plan.workdir ==> did(run, CreateStep::CheckWorkdir)
                &&& plan.restores ==> did(run, CreateStep::CompleteRestore)
            },
            _ => true,
        },
{
    let at = create_run(run).step;
    if rank(at) > 2 {
        lemma_done_iff(run, plan, CreateStep::CheckTarget);
    }
    if rank(at) > 3 {
        lemma_done_iff(run, plan, CreateStep::ResolveEarly);
    }
    if rank(at) > 5 {
        lemma_done_iff(run, plan, CreateStep::PrepareRestore);
    }
    if rank(at) > 8 {
        lemma_done_iff(run, plan, CreateStep::DecodeArchive);
    }
    if rank(at) > 14 {
        lemma_done_iff(run, plan, CreateStep::PublishArchive);
        lemma_done_iff(run, plan, CreateStep::ReserveBranch);
    }
    if rank(at) > 16 {
        lemma_done_iff(run, plan, CreateStep::CaptureBranch);
        lemma_done_iff(run, plan, CreateStep::MaterializeCheckpoint);
    }
    if rank(at) > 20 {
        lemma_done_iff(run, plan, CreateStep::MaterializeFiles);
        lemma_done_iff(run, plan, CreateStep::MaterializeOwned);
    }
    if rank(at) > 21 {
        lemma_done_iff(run, plan, CreateStep::ResolveImage);
    }
    if rank(at) > 23 {
        lemma_done_iff(run, plan, CreateStep::ProvisionRoot);
        lemma_done_iff(run, plan, CreateStep::ApplyPatches);
    }
    if rank(at) > 30 {
        lemma_done_iff(run, plan, CreateStep::PinManifest);
    }
    if rank(at) > 31 {
        lemma_done_iff(run, plan, CreateStep::CheckWorkdir);
    }
    if rank(at) > 32 {
        lemma_done_iff(run, plan, CreateStep::CompleteRestore);
    }
    if at == CreateStep::ResolveEarly {
        if !plan.early() {
            lemma_unneeded(run, plan, CreateStep::ResolveEarly);
        }
    }
    if at == CreateStep::CaptureBranch {
        if !plan.branch {
            lemma_unneeded(run, plan, CreateStep::CaptureBranch);
        }
    }
    if at == CreateStep::ProvisionRoot {
        if !plan.oci {
            lemma_unneeded(run, plan, CreateStep::ProvisionRoot);
        }
    }
}

proof fn lemma_smooth(run: Seq<(CreateEvent, CreatePlan)>)
    requires
        forall|n: int| 0 <= n < run.len() ==> (#[trigger] run[n]).0 == CreateEvent::Done,
    ensures
        rank(create_run(run).step) > 0,
        rank(create_run(run).step) > run.len() || create_run(run).step == CreateStep::Created,
    decreases run.len(),
{
    if run.len() > 0 {
        let before = run.drop_last();
        assert forall|n: int| 0 <= n < before.len() implies (#[trigger] before[n]).0
            == CreateEvent::Done by {
            assert(run[n].0 == CreateEvent::Done);
        }
        lemma_smooth(before);
        assert(run[run.len() - 1].0 == CreateEvent::Done);
        let at = create_run(before).step;
        if at != CreateStep::Created {
            lemma_next_needed(rank(at) + 1, run.last().1);
        }
    }
}

/// A creation whose steps all succeed never fails, and comes to its end: whatever the plans, the
/// sandbox is created.
pub proof fn smooth_creations_succeed(run: Seq<(CreateEvent, CreatePlan)>)
    requires
        forall|n: int| 0 <= n < run.len() ==> (#[trigger] run[n]).0 == CreateEvent::Done,
    ensures
        create_run(run).step != CreateStep::Failed,
        create_run(run).step != CreateStep::FailedUnclean,
        !(create_run(run).step is Terminate),
        create_run(run).step != CreateStep::RollBackVolumes,
        create_run(run).step != CreateStep::RollBackStartup,
        create_run(run).step != CreateStep::FinishOwned,
        create_run(run).step != CreateStep::LeaveToCleanup,
        run.len() >= 33 ==> create_run(run).step == CreateStep::Created,
{
    lemma_smooth(run);
}

/// A failure undoes what was done, and no more. Before named volumes were made there is nothing to
/// undo but the stage. Afterwards the volumes go, with the record where there is one; a machine
/// that runs is terminated first, or left to the cleanup that owns it; and what belongs to the
/// sandbox alone goes last.
pub proof fn failures_undo_what_was_done(step: CreateStep, plan: CreatePlan)
    ensures
        ({
            let next = create_next(step, CreateEvent::Failed, plan);
            match step {
                CreateStep::PrepareVolumes => next == CreateStep::FinishOwned,
                CreateStep::InsertRecord => next == CreateStep::RollBackVolumes,
                CreateStep::Boot => next == CreateStep::RollBackStartup,
                CreateStep::Publish => next == CreateStep::LeaveToCleanup,
                CreateStep::Detach => next == CreateStep::LeaveToCleanup,
                CreateStep::RecordConfig => next == (CreateStep::Terminate { rollback: false }),
                CreateStep::CompleteRestore => next == (CreateStep::Terminate { rollback: false }),
                CreateStep::PinManifest => next == (CreateStep::Terminate { rollback: true }),
                CreateStep::CheckWorkdir => next == (CreateStep::Terminate { rollback: true }),
                CreateStep::RollBackVolumes => next == if plan.owned_volumes {
                    CreateStep::FinishOwned
                } else {
                    CreateStep::Failed
                },
                CreateStep::Terminate { rollback } => next == if rollback {
                    CreateStep::RollBackStartup
                } else {
                    CreateStep::FinishOwned
                },
                CreateStep::RollBackStartup => next == CreateStep::FailedUnclean,
                CreateStep::Created => next == CreateStep::Created,
                CreateStep::FailedUnclean => next == CreateStep::FailedUnclean,
                _ => next == CreateStep::Failed,
            }
        }),
        create_next(CreateStep::RollBackVolumes, CreateEvent::Done, plan) == if plan.owned_volumes {
            CreateStep::FinishOwned
        } else {
            CreateStep::Failed
        },
        create_next(CreateStep::Terminate { rollback: true }, CreateEvent::Done, plan)
            == CreateStep::RollBackStartup,
        create_next(CreateStep::Terminate { rollback: false }, CreateEvent::Done, plan)
            == CreateStep::FinishOwned,
        create_next(CreateStep::RollBackStartup, CreateEvent::Done, plan)
            == CreateStep::FinishOwned,
        create_next(CreateStep::FinishOwned, CreateEvent::Done, plan) == CreateStep::Failed,
        create_next(CreateStep::LeaveToCleanup, CreateEvent::Done, plan) == CreateStep::Failed,
        create_next(CreateStep::Publish, CreateEvent::Lost, plan) == (CreateStep::Terminate {
            rollback: false,
        }),
        step != CreateStep::Publish && rank(step) > 0 ==> create_next(step, CreateEvent::Lost, plan)
            == step,
{
}

/// A failure ends in failure: from a step that only a failure leads to, the sandbox is never
/// created.
pub proof fn failures_are_final(step: CreateStep, event: CreateEvent, plan: CreatePlan)
    requires
        step is Terminate || step == CreateStep::RollBackVolumes || step
            == CreateStep::RollBackStartup || step == CreateStep::FinishOwned || step
            == CreateStep::LeaveToCleanup || step == CreateStep::Failed || step
            == CreateStep::FailedUnclean,
    ensures
        ({
            let next = create_next(step, event, plan);
            next is Terminate || next == CreateStep::RollBackVolumes || next
                == CreateStep::RollBackStartup || next == CreateStep::FinishOwned || next
                == CreateStep::LeaveToCleanup || next == CreateStep::Failed || next
                == CreateStep::FailedUnclean
        }),
{
}

/// Whether something was brought into the place of the sandbox.
pub open spec fn brought_in(run: Seq<(CreateEvent, CreatePlan)>) -> bool {
    did(run, CreateStep::PublishArchive) || did(run, CreateStep::ReserveBranch) || came_to(
        run,
        CreateStep::MaterializeCheckpoint,
    ) || came_to(run, CreateStep::MaterializeFiles)
}

proof fn lemma_brought_in(run: Seq<(CreateEvent, CreatePlan)>)
    ensures
        (create_run(run).storage == Storage::Staged || create_run(run).storage == Storage::Cleanup)
            ==> brought_in(run),
        brought_in(run) ==> create_run(run).storage != Storage::Absent,
        rank(create_run(run).step) > rank(CreateStep::MaterializeFiles) || rank(
            create_run(run).step,
        ) == 0 || create_run(run).storage != Storage::Cleanup,
    decreases run.len(),
{
    if run.len() == 0 {
        if came_to(run, CreateStep::MaterializeCheckpoint) {
            let n = choose|n: int|
                0 <= n <= run.len() && #[trigger] create_run(run.take(n)).step
                    == CreateStep::MaterializeCheckpoint;
            assert(run.take(n) =~= run);
        }
        if came_to(run, CreateStep::MaterializeFiles) {
            let n = choose|n: int|
                0 <= n <= run.len() && #[trigger] create_run(run.take(n)).step
                    == CreateStep::MaterializeFiles;
            assert(run.take(n) =~= run);
        }
    } else {
        let before = run.drop_last();
        lemma_brought_in(before);
        lemma_did(run, CreateStep::PublishArchive);
        lemma_did(run, CreateStep::ReserveBranch);
        lemma_came_to(run, CreateStep::MaterializeCheckpoint);
        lemma_came_to(run, CreateStep::MaterializeFiles);
        lemma_came_to(before, CreateStep::MaterializeCheckpoint);
        lemma_came_to(before, CreateStep::MaterializeFiles);
        lemma_came_to_back(run, CreateStep::MaterializeCheckpoint);
        lemma_came_to_back(run, CreateStep::MaterializeFiles);
        let at = create_run(before).step;
        lemma_forward(at, run.last().0, run.last().1);
        if rank(at) > 0 && at != CreateStep::Created {
            lemma_next_needed(rank(at) + 1, run.last().1);
        }
    }
}

proof fn lemma_came_to_back(run: Seq<(CreateEvent, CreatePlan)>, step: CreateStep)
    requires
        run.len() > 0,
    ensures
        came_to(run, step) ==> came_to(run.drop_last(), step) || create_run(run).step == step,
{
    let before = run.drop_last();
    if came_to(run, step) {
        let n = choose|n: int|
            0 <= n <= run.len() && #[trigger] create_run(run.take(n)).step == step;
        if n == run.len() {
            assert(run.take(n) =~= run);
        } else {
            assert(before.take(n) =~= run.take(n));
            assert(create_run(before.take(n)).step == step);
        }
    }
}

/// Storage that was brought in is never without an owner: from the moment an archive is published,
/// a branch has its directory, or files of a snapshot are about to be brought in, a failure finds
/// somebody who removes it, until the record owns it. Where nothing was brought in, nothing is
/// removed.
pub proof fn storage_is_never_orphaned(run: Seq<(CreateEvent, CreatePlan)>)
    ensures
        brought_in(run) ==> create_run(run).storage != Storage::Absent,
        (create_run(run).storage == Storage::Staged || create_run(run).storage == Storage::Cleanup)
            ==> brought_in(run),
{
    lemma_brought_in(run);
}

/// Staged storage goes over to the cleanup that owns the volumes exactly where the sandbox has
/// volumes of its own, once the named volumes are there.
pub proof fn owned_storage_is_handed_over(storage: Storage, event: CreateEvent, plan: CreatePlan)
    ensures
        storage_next(storage, CreateStep::EnsureVolumes, event, plan) == if event
            == CreateEvent::Done && plan.owned_volumes && storage == Storage::Staged {
            Storage::Cleanup
        } else {
            storage
        },
{
    lemma_next_needed(25, plan);
}

/// A request continues from something exactly where it names one of the things there are to
/// continue from.
pub proof fn one_source_is_enough(sources: RestoreSources)
    ensures
        sources.snapshot_reference ==> sources.any(),
        sources.archive ==> sources.any(),
        sources.upper_source ==> sources.any(),
        sources.checkpoint ==> sources.any(),
        sources.branch ==> sources.any(),
        sources.snapshot_parent ==> sources.any(),
        sources.any() ==> sources.snapshot_reference || sources.archive || sources.upper_source
            || sources.checkpoint || sources.branch || sources.snapshot_parent,
{
}

} // verus!
