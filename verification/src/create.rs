//! Creating a sandbox.

use vstd::prelude::*;

use crate::agent_socket::{
    LocalBackend, first_fit, resolve_sandbox_agent_socket_path_for, socket_candidates, too_long,
};
use crate::error::{ErrorView, MicrosandboxError, MicrosandboxResult, failure};
use crate::host_paths::{
    host_components, host_join, host_joined, is_below, move_path, moved, same_path,
};
use crate::images::{
    DISK_LIMIT_MIB, RootfsMaterialization, check_snapshot_manifest, expected_manifest,
    expected_snapshot_manifest, flat_root_size, flat_target, image_materialization,
    manifest_refusal, materialization_of,
};
use crate::outside::{quoted, quoted_text};
use crate::spawn::SpawnMode;
use crate::text::same;
use crate::types::{
    CheckpointRestore, DeploymentProfile, FlatClone, OciRootfsSource, RootDisk, RootfsSource,
    SandboxConfig, SandboxRuntimeOptions, SandboxSpec, VolumeMount,
};

verus! {

// ------------------------------------------------------------------------------------------------
// Staged storage
// ------------------------------------------------------------------------------------------------

/// Storage of a sandbox that has no record yet: it goes when its guard goes, unless the guard was
/// disarmed.
pub struct ChildStageGuard {
    pub path: String,
    pub armed: bool,
}

impl ChildStageGuard {
    /// Guards the storage at `path`.
    pub fn new(path: String) -> (r: Self)
        ensures
            r.path == path,
            r.armed,
    {
        ChildStageGuard { path, armed: true }
    }

    /// Lets the storage stay.
    pub fn disarm(&mut self)
        ensures
            final(self).path == old(self).path,
            !final(self).armed,
    {
        self.armed = false;
    }

    /// The storage to remove when the guard goes.
    pub fn into_removal(self) -> (r: Option<String>)
        ensures
            r == if self.armed {
                Some(self.path)
            } else {
                None
            },
    {
        if self.armed {
            Some(self.path)
        } else {
            None
        }
    }
}

// ------------------------------------------------------------------------------------------------
// Archives
// ------------------------------------------------------------------------------------------------

/// A mount after a move of the archive's files: disk images below the old place follow it.
pub open spec fn mount_moved(
    before: VolumeMount,
    after: VolumeMount,
    stage: Seq<char>,
    child: Seq<char>,
    windows: bool,
) -> bool {
    match before {
        VolumeMount::DiskImage { host, guest, format, fstype, options } => after matches
            VolumeMount::DiskImage {
            host: new_host,
            guest: new_guest,
            format: new_format,
            fstype: new_fstype,
            options: new_options,
        } && new_host@ == moved(host@, stage, child, windows) && new_guest == guest && new_format == format
            && new_fstype == fstype && new_options == options,
        _ => after == before,
    }
}

/// A path after a move, where there is one.
pub open spec fn path_moved(
    before: Option<String>,
    after: Option<String>,
    stage: Seq<char>,
    child: Seq<char>,
    windows: bool,
) -> bool {
    match before {
        Some(path) => after matches Some(new) && new@ == moved(path@, stage, child, windows),
        None => after is None,
    }
}

/// A restore after a move of its files.
pub open spec fn restore_moved(
    before: Option<CheckpointRestore>,
    after: Option<CheckpointRestore>,
    stage: Seq<char>,
    child: Seq<char>,
    windows: bool,
) -> bool {
    match before {
        Some(restore) => after matches Some(new) && new.closure@ == moved(
            restore.closure@,
            stage,
            child,
            windows,
        ) && new.checkpoint_root == restore.checkpoint_root && new.checkpoint_id
            == restore.checkpoint_id,
        None => after is None,
    }
}

/// Points a configuration to where the files of an archive were moved. What is not below `stage`
/// stays as it is.
pub fn relocate_archive_config(
    config: &mut SandboxConfig,
    stage: &str,
    child: &str,
    windows: bool,
)
    ensures
        restore_moved(
            old(config).checkpoint_restore,
            final(config).checkpoint_restore,
            stage@,
            child@,
            windows,
        ),
        path_moved(
            old(config).snapshot_upper_source,
            final(config).snapshot_upper_source,
            stage@,
            child@,
            windows,
        ),
        final(config).snapshot_upper_layers@.len() == old(config).snapshot_upper_layers@.len(),
        forall|i: int|
            0 <= i < old(config).snapshot_upper_layers@.len() ==> (
            #[trigger] final(config).snapshot_upper_layers@[i])@ == moved(
                old(config).snapshot_upper_layers@[i]@,
                stage@,
                child@,
                windows,
            ),
        final(config).spec.mounts@.len() == old(config).spec.mounts@.len(),
        forall|i: int|
            0 <= i < old(config).spec.mounts@.len() ==> mount_moved(
                old(config).spec.mounts@[i],
                #[trigger] final(config).spec.mounts@[i],
                stage@,
                child@,
                windows,
            ),
        *final(config) == (SandboxConfig {
            checkpoint_restore: final(config).checkpoint_restore,
            snapshot_upper_source: final(config).snapshot_upper_source,
            snapshot_upper_layers: final(config).snapshot_upper_layers,
            spec: SandboxSpec { mounts: final(config).spec.mounts, ..old(config).spec },
            ..*old(config)
        }),
{
    let ghost before = *config;
    if let Some(restore) = &mut config.checkpoint_restore {
        restore.closure = move_path(restore.closure.as_str(), stage, child, windows);
    }
    if let Some(source) = &mut config.snapshot_upper_source {
        *source = move_path(source.as_str(), stage, child, windows);
    }
    let mut i: usize = 0;
    while i < config.snapshot_upper_layers.len()
        invariant
            i <= config.snapshot_upper_layers@.len(),
            config.snapshot_upper_layers@.len() == before.snapshot_upper_layers@.len(),
            restore_moved(before.checkpoint_restore, config.checkpoint_restore, stage@, child@, windows),
            path_moved(
                before.snapshot_upper_source,
                config.snapshot_upper_source,
                stage@,
                child@,
                windows,
            ),
            forall|k: int|
                0 <= k < i ==> (#[trigger] config.snapshot_upper_layers@[k])@ == moved(
                    before.snapshot_upper_layers@[k]@,
                    stage@,
                    child@,
                    windows,
                ),
            forall|k: int|
                i <= k < before.snapshot_upper_layers@.len()
                    ==> #[trigger] config.snapshot_upper_layers@[k]
                    == before.snapshot_upper_layers@[k],
            *config == (SandboxConfig {
                checkpoint_restore: config.checkpoint_restore,
                snapshot_upper_source: config.snapshot_upper_source,
                snapshot_upper_layers: config.snapshot_upper_layers,
                ..before
            }),
        decreases config.snapshot_upper_layers@.len() - i,
    {
        let layer = move_path(config.snapshot_upper_layers[i].as_str(), stage, child, windows);
        config.snapshot_upper_layers.set(i, layer);
        i = i + 1;
    }
    let ghost layered = *config;
    let mut j: usize = 0;
    while j < config.spec.mounts.len()
        invariant
            j <= config.spec.mounts@.len(),
            config.spec.mounts@.len() == layered.spec.mounts@.len(),
            forall|k: int|
                0 <= k < j ==> mount_moved(
                    layered.spec.mounts@[k],
                    #[trigger] config.spec.mounts@[k],
                    stage@,
                    child@,
                    windows,
                ),
            forall|k: int|
                j <= k < layered.spec.mounts@.len() ==> #[trigger] config.spec.mounts@[k]
                    == layered.spec.mounts@[k],
            *config == (SandboxConfig {
                spec: SandboxSpec { mounts: config.spec.mounts, ..layered.spec },
                ..layered
            }),
        decreases config.spec.mounts@.len() - j,
    {
        if let VolumeMount::DiskImage { host, .. } = &mut config.spec.mounts[j] {
            *host = move_path(host.as_str(), stage, child, windows);
        }
        j = j + 1;
    }
}

/// Only what was staged moves: a path that is not below the stage stays as it is.
pub proof fn only_staged_paths_move(
    path: Seq<char>,
    stage: Seq<char>,
    child: Seq<char>,
    windows: bool,
)
    requires
        !is_below(path, stage, windows),
    ensures
        moved(path, stage, child, windows) == path,
{
}

/// The root disk that a snapshot was taken of.
#[derive(Clone, Copy, Debug, PartialEq, Eq, Structural)]
pub enum SnapshotRootDisk {
    /// A disk of its own, layered over the image.
    Managed,
    /// One disk that holds the whole root filesystem.
    Flat,
    /// Guest memory, layered over the image.
    Tmpfs { size_mib: Option<u32> },
}

/// What a snapshot holds of the machine.
#[derive(Clone, Copy, Debug, PartialEq, Eq, Structural)]
pub enum SnapshotState {
    /// The whole machine.
    Checkpoint,
    /// Its disks.
    File,
}

/// The mounts of a configuration and the volumes that belong to the sandbox alone, with the disks
/// of a snapshot in their places.
pub struct AdditionalDisks {
    pub mounts: Vec<VolumeMount>,
    /// Guest paths of the volumes that belong to the sandbox itself.
    pub owned_volumes: Vec<String>,
}

/// What was unpacked from an archive into its stage.
pub struct ArchiveContents {
    /// The image that the snapshot depends on.
    pub reference: String,
    pub manifest_digest: String,
    /// The root disk as the new sandbox is to have it, or why it cannot have it.
    pub root_disk: MicrosandboxResult<Option<RootDisk>>,
    /// The root disk that the snapshot was taken of.
    pub layout: SnapshotRootDisk,
    /// The user that the snapshot runs as, or why that cannot be told.
    pub user: MicrosandboxResult<Option<String>>,
    pub disks: AdditionalDisks,
    pub snapshot_id: String,
    pub state: SnapshotState,
    pub checkpoint_restore: Option<CheckpointRestore>,
    pub upper_layers: Vec<String>,
}

/// A machine that was captured as a whole: it goes on where it was.
pub struct CapturedMachine {
    pub restore: CheckpointRestore,
    pub upper_layers: Vec<String>,
}

/// The one disk of a snapshot that holds only disks, inside of its stage.
pub open spec fn staged_disk(
    layout: SnapshotRootDisk,
    stage: Seq<char>,
    flat_filename: Seq<char>,
    windows: bool,
) -> Seq<char> {
    host_joined(
        stage,
        if layout == SnapshotRootDisk::Flat {
            flat_filename
        } else {
            "upper.ext4"@
        },
        windows,
    )
}

/// Why the contents of an archive cannot be booted. Its user counts only where none is asked for.
pub open spec fn archive_refusal(config: SandboxConfig, archive: ArchiveContents) -> Option<
    ErrorView,
> {
    earlier(
        if config.spec.runtime.user is None {
            failure(archive.user)
        } else {
            None
        },
        earlier(
            failure(archive.root_disk),
            if archive.checkpoint_restore is Some && archive.state == SnapshotState::File {
                Some(
                    ErrorView::SnapshotIntegrity(
                        "archive produced checkpoint construction state for file snapshot"@,
                    ),
                )
            } else {
                None
            },
        ),
    )
}

/// What a configuration becomes with an archive.
pub open spec fn adopted(
    before: SandboxConfig,
    after: SandboxConfig,
    archive: ArchiveContents,
    stage: Seq<char>,
    flat_filename: Seq<char>,
    windows: bool,
) -> bool {
    let full = archive.checkpoint_restore is Some;
    let layered = archive.upper_layers@.len() > 0;
    &&& if !full && !layered && archive.state == SnapshotState::File {
        after.snapshot_upper_source matches Some(source) && source@ == staged_disk(
            archive.layout,
            stage,
            flat_filename,
            windows,
        )
    } else {
        after.snapshot_upper_source == before.snapshot_upper_source
    }
    &&& after == (SandboxConfig {
        spec: SandboxSpec {
            image: RootfsSource::Oci(
                OciRootfsSource { reference: archive.reference, root_disk: archive.root_disk->Ok_0 },
            ),
            runtime: SandboxRuntimeOptions {
                user: if before.spec.runtime.user is None {
                    archive.user->Ok_0
                } else {
                    before.spec.runtime.user
                },
                ..before.spec.runtime
            },
            mounts: archive.disks.mounts,
            ..before.spec
        },
        owned_volumes: archive.disks.owned_volumes,
        snapshot_parent: Some(archive.snapshot_id),
        manifest_digest: Some(archive.manifest_digest),
        snapshot_upper_layers: if !full && layered {
            archive.upper_layers
        } else {
            before.snapshot_upper_layers
        },
        snapshot_upper_source: after.snapshot_upper_source,
        ..before
    })
}

/// Makes the contents of an archive what a configuration boots. Where a whole machine was
/// captured it comes back: the configuration continues it once [`adopt_machine`] was called.
pub fn adopt_archive(
    config: &mut SandboxConfig,
    archive: ArchiveContents,
    stage: &str,
    flat_filename: &str,
    windows: bool,
) -> (r: MicrosandboxResult<Option<CapturedMachine>>)
    requires
        archive.state == SnapshotState::File && archive.upper_layers@.len() == 0
            && archive.checkpoint_restore is None ==> !(archive.layout is Tmpfs),
    ensures
        failure(r) == archive_refusal(*old(config), archive),
        r is Err ==> *final(config) == *old(config),
        r matches Ok(machine) ==> {
            &&& adopted(*old(config), *final(config), archive, stage@, flat_filename@, windows)
            &&& machine == match archive.checkpoint_restore {
                Some(restore) => Some(
                    CapturedMachine { restore, upper_layers: archive.upper_layers },
                ),
                None => None,
            }
        },
{
    let ArchiveContents {
        reference,
        manifest_digest,
        root_disk,
        layout,
        user,
        disks,
        snapshot_id,
        state,
        checkpoint_restore,
        upper_layers,
    } = archive;
    let user = if config.spec.runtime.user.is_none() {
        match user {
            Ok(user) => user,
            Err(e) => {
                return Err(e);
            },
        }
    } else {
        None
    };
    let root_disk = match root_disk {
        Ok(disk) => disk,
        Err(e) => {
            return Err(e);
        },
    };
    if checkpoint_restore.is_some() && state == SnapshotState::File {
        return Err(
            MicrosandboxError::SnapshotIntegrity(
                "archive produced checkpoint construction state for file snapshot".to_owned(),
            ),
        );
    }
    config.spec.image = RootfsSource::Oci(OciRootfsSource { reference, root_disk });
    if config.spec.runtime.user.is_none() {
        config.spec.runtime.user = user;
    }
    config.snapshot_parent = Some(snapshot_id);
    config.spec.mounts = disks.mounts;
    config.owned_volumes = disks.owned_volumes;
    config.manifest_digest = Some(manifest_digest);
    if let Some(restore) = checkpoint_restore {
        return Ok(Some(CapturedMachine { restore, upper_layers }));
    }
    if upper_layers.len() > 0 {
        config.snapshot_upper_layers = upper_layers;
    } else if state == SnapshotState::File {
        let disk = match layout {
            SnapshotRootDisk::Flat => host_join(stage, flat_filename, windows),
            _ => host_join(stage, "upper.ext4", windows),
        };
        config.snapshot_upper_source = Some(disk);
    }
    Ok(None)
}

/// Continues a captured machine. `constrained` is the configuration as the machine constrains it,
/// or why the machine cannot be continued with it. A machine that goes on does not run its startup
/// command again.
pub fn adopt_machine(
    constrained: MicrosandboxResult<SandboxConfig>,
    machine: CapturedMachine,
) -> (r: MicrosandboxResult<SandboxConfig>)
    ensures
        match constrained {
            Err(e) => failure(r) == Some(e@),
            Ok(config) => r == Ok::<SandboxConfig, MicrosandboxError>(
                SandboxConfig {
                    checkpoint_restore: Some(machine.restore),
                    snapshot_upper_layers: machine.upper_layers,
                    startup_command_requested: false,
                    ..config
                },
            ),
        },
{
    match constrained {
        Err(e) => Err(e),
        Ok(config) => {
            let mut config = config;
            config.checkpoint_restore = Some(machine.restore);
            config.snapshot_upper_layers = machine.upper_layers;
            config.startup_command_requested = false;
            Ok(config)
        },
    }
}

/// What was brought in from an installed checkpoint.
pub struct CheckpointParts {
    /// The state of the machine; none where only its disks are restored.
    pub restore: Option<CheckpointRestore>,
    pub disks: AdditionalDisks,
    pub upper_layers: Vec<String>,
}

/// Makes an installed checkpoint what a configuration boots. Only a full restore continues the
/// machine; it does not run its startup command again.
pub fn adopt_checkpoint(config: &mut SandboxConfig, parts: CheckpointParts)
    ensures
        *final(config) == (SandboxConfig {
            spec: (SandboxSpec { mounts: parts.disks.mounts, ..old(config).spec }),
            owned_volumes: parts.disks.owned_volumes,
            snapshot_upper_layers: parts.upper_layers,
            checkpoint_restore: if parts.restore is Some {
                parts.restore
            } else {
                old(config).checkpoint_restore
            },
            startup_command_requested: old(config).startup_command_requested
                && parts.restore is None,
            ..*old(config)
        }),
{
    if parts.restore.is_some() {
        config.checkpoint_restore = parts.restore;
        config.startup_command_requested = false;
    }
    config.spec.mounts = parts.disks.mounts;
    config.owned_volumes = parts.disks.owned_volumes;
    config.snapshot_upper_layers = parts.upper_layers;
}

/// Puts the disks of a snapshot in their places.
pub fn adopt_disks(config: &mut SandboxConfig, disks: AdditionalDisks)
    ensures
        *final(config) == (SandboxConfig {
            spec: (SandboxSpec { mounts: disks.mounts, ..old(config).spec }),
            owned_volumes: disks.owned_volumes,
            ..*old(config)
        }),
{
    config.spec.mounts = disks.mounts;
    config.owned_volumes = disks.owned_volumes;
}

/// The root disk that a restore of a configuration expects the snapshot to be of.
pub open spec fn expected_layout(image: RootfsSource) -> Result<SnapshotRootDisk, ErrorView> {
    match image {
        RootfsSource::Oci(oci) => match oci.root_disk {
            None => Ok(SnapshotRootDisk::Managed),
            Some(RootDisk::Managed { .. }) => Ok(SnapshotRootDisk::Managed),
            Some(RootDisk::Flat { .. }) => Ok(SnapshotRootDisk::Flat),
            Some(RootDisk::Tmpfs { size_mib }) => Ok(SnapshotRootDisk::Tmpfs { size_mib }),
            Some(RootDisk::DiskImage { .. }) => Err(
                ErrorView::SnapshotIntegrity(
                    "snapshot descriptor cannot select a user-owned disk-image root"@,
                ),
            ),
        },
        _ => Err(
            ErrorView::SnapshotIntegrity("snapshot restore did not resolve to an OCI rootfs"@),
        ),
    }
}

/// The root disk that a restore of a configuration expects the snapshot to be of.
pub fn snapshot_root_layout_from_config(config: &SandboxConfig) -> (r: MicrosandboxResult<
    SnapshotRootDisk,
>)
    ensures
        match expected_layout(config.spec.image) {
            Ok(layout) => r == Ok::<SnapshotRootDisk, MicrosandboxError>(layout),
            Err(e) => failure(r) == Some(e),
        },
{
    match &config.spec.image {
        RootfsSource::Oci(oci) => match &oci.root_disk {
            None => Ok(SnapshotRootDisk::Managed),
            Some(RootDisk::Managed { .. }) => Ok(SnapshotRootDisk::Managed),
            Some(RootDisk::Flat { .. }) => Ok(SnapshotRootDisk::Flat),
            Some(RootDisk::Tmpfs { size_mib }) => Ok(
                SnapshotRootDisk::Tmpfs { size_mib: *size_mib },
            ),
            Some(RootDisk::DiskImage { .. }) => Err(
                MicrosandboxError::SnapshotIntegrity(
                    "snapshot descriptor cannot select a user-owned disk-image root".to_owned(),
                ),
            ),
        },
        _ => Err(
            MicrosandboxError::SnapshotIntegrity(
                "snapshot restore did not resolve to an OCI rootfs".to_owned(),
            ),
        ),
    }
}

// ------------------------------------------------------------------------------------------------
// What is refused
// ------------------------------------------------------------------------------------------------

/// The refusal to boot a sandbox whose restore did not complete.
pub open spec fn incomplete_restore(name: Seq<char>) -> ErrorView {
    ErrorView::InvalidConfig(
        "sandbox "@ + quoted_text(name)
            + " has an incomplete restore; remove and recreate it from the snapshot; refusing a cold boot"@,
    )
}

/// What the host says of the path of a root filesystem.
#[derive(Clone, Copy, Debug, PartialEq, Eq, Structural)]
pub enum PathFact {
    Missing,
    File,
    Directory,
    /// Something that is neither a regular file nor a directory.
    Other,
}

/// Why a root filesystem cannot be used.
pub open spec fn rootfs_refusal(rootfs: RootfsSource, fact: PathFact) -> Option<ErrorView> {
    match rootfs {
        RootfsSource::Bind { path } => if fact == PathFact::Missing {
            Some(ErrorView::InvalidConfig("rootfs bind path does not exist: "@ + path@))
        } else if fact != PathFact::Directory {
            Some(ErrorView::InvalidConfig("rootfs bind path is not a directory: "@ + path@))
        } else {
            None
        },
        RootfsSource::Oci(_) => None,
        RootfsSource::DiskImage { path, .. } => if fact == PathFact::Missing {
            Some(ErrorView::InvalidConfig("disk image does not exist: "@ + path@))
        } else if fact != PathFact::File {
            Some(ErrorView::InvalidConfig("disk image is not a regular file: "@ + path@))
        } else {
            None
        },
    }
}

/// Why no sandbox can run under a name that passed the check of names.
pub open spec fn socket_refusal(backend: LocalBackend, name: Seq<char>) -> Option<ErrorView> {
    let paths = socket_candidates(backend.run_dir@, backend.sandboxes_dir@, name);
    if first_fit(paths, backend.socket_path_capacity) is Some {
        None
    } else {
        Some(too_long(paths, backend.socket_path_capacity))
    }
}

/// What the checks of single settings say of a configuration.
pub struct ConfigChecks {
    pub hostname: MicrosandboxResult<()>,
    pub name: MicrosandboxResult<()>,
    pub env: MicrosandboxResult<()>,
    pub labels: MicrosandboxResult<()>,
    pub mounts: MicrosandboxResult<()>,
    pub init: MicrosandboxResult<()>,
}

/// The first of two refusals.
pub open spec fn earlier(first: Option<ErrorView>, second: Option<ErrorView>) -> Option<ErrorView> {
    if first is Some {
        first
    } else {
        second
    }
}

/// The first refusal of a configuration that is to start: hostname, name, socket, root filesystem,
/// environment, labels, mounts.
pub open spec fn start_config_refusal(
    backend: LocalBackend,
    config: SandboxConfig,
    fact: PathFact,
    checks: ConfigChecks,
) -> Option<ErrorView> {
    earlier(
        failure(checks.hostname),
        earlier(
            failure(checks.name),
            earlier(
                socket_refusal(backend, config.spec.name@),
                earlier(
                    rootfs_refusal(config.spec.image, fact),
                    earlier(
                        failure(checks.env),
                        earlier(failure(checks.labels), failure(checks.mounts)),
                    ),
                ),
            ),
        ),
    )
}

/// The first refusal of a configuration to create: as for a start, then the init process, where
/// the configuration has one.
pub open spec fn final_config_refusal(
    backend: LocalBackend,
    config: SandboxConfig,
    fact: PathFact,
    checks: ConfigChecks,
) -> Option<ErrorView> {
    earlier(
        start_config_refusal(backend, config, fact, checks),
        if config.spec.init is Some {
            failure(checks.init)
        } else {
            None
        },
    )
}

fn refusal(what: &str, path: &str) -> (r: MicrosandboxResult<()>)
    ensures
        failure(r) == Some(ErrorView::InvalidConfig(what@ + path@)),
{
    let mut message = what.to_owned();
    message.append(path);
    Err(MicrosandboxError::InvalidConfig(message))
}

impl LocalBackend {
    /// Refuses to boot a sandbox whose restore did not complete: it would start from nothing.
    pub fn validate_completed_restore(config: &SandboxConfig) -> (r: MicrosandboxResult<()>)
        ensures
            failure(r) == if config.checkpoint_restore is Some {
                Some(incomplete_restore(config.spec.name@))
            } else {
                None
            },
    {
        if config.checkpoint_restore.is_some() {
            let mut message = "sandbox ".to_owned();
            message.append(quoted(config.spec.name.as_str()).as_str());
            message.append(
                " has an incomplete restore; remove and recreate it from the snapshot; refusing a cold boot",
            );
            return Err(MicrosandboxError::InvalidConfig(message));
        }
        Ok(())
    }

    /// Refuses a root filesystem that the host does not have, given what the host says of its
    /// path. An image is not on the host yet.
    pub fn validate_rootfs_source(rootfs: &RootfsSource, fact: PathFact) -> (r: MicrosandboxResult<
        (),
    >)
        ensures
            failure(r) == rootfs_refusal(*rootfs, fact),
    {
        match rootfs {
            RootfsSource::Bind { path } => match fact {
                PathFact::Missing => refusal("rootfs bind path does not exist: ", path.as_str()),
                PathFact::Directory => Ok(()),
                _ => refusal("rootfs bind path is not a directory: ", path.as_str()),
            },
            RootfsSource::Oci(_) => Ok(()),
            RootfsSource::DiskImage { path, .. } => match fact {
                PathFact::Missing => refusal("disk image does not exist: ", path.as_str()),
                PathFact::File => Ok(()),
                _ => refusal("disk image is not a regular file: ", path.as_str()),
            },
        }
    }

    /// Refuses a name that is not valid, as `name_check` says, or under which no socket fits.
    pub fn validate_sandbox_name_for_runtime(
        &self,
        name: &str,
        name_check: MicrosandboxResult<()>,
    ) -> (r: MicrosandboxResult<()>)
        ensures
            failure(r) == earlier(failure(name_check), socket_refusal(*self, name@)),
    {
        match name_check {
            Err(e) => Err(e),
            Ok(_) => match resolve_sandbox_agent_socket_path_for(self, name) {
                Ok(_) => Ok(()),
                Err(e) => Err(e),
            },
        }
    }

    /// Refuses a configuration that cannot start, for the first reason there is. `fact` is what
    /// the host says of the path of its root filesystem.
    pub fn validate_start_config(
        &self,
        config: &SandboxConfig,
        fact: PathFact,
        checks: ConfigChecks,
    ) -> (r: MicrosandboxResult<()>)
        ensures
            failure(r) == start_config_refusal(*self, *config, fact, checks),
    {
        if checks.hostname.is_err() {
            return checks.hostname;
        }
        let named = self.validate_sandbox_name_for_runtime(config.spec.name.as_str(), checks.name);
        if named.is_err() {
            return named;
        }
        let rooted = Self::validate_rootfs_source(&config.spec.image, fact);
        if rooted.is_err() {
            return rooted;
        }
        if checks.env.is_err() {
            return checks.env;
        }
        if checks.labels.is_err() {
            return checks.labels;
        }
        checks.mounts
    }

    /// Refuses a configuration from which no sandbox can be created, for the first reason there
    /// is.
    pub fn validate_final_config(
        &self,
        config: &SandboxConfig,
        fact: PathFact,
        checks: ConfigChecks,
    ) -> (r: MicrosandboxResult<()>)
        ensures
            failure(r) == final_config_refusal(*self, *config, fact, checks),
    {
        let ConfigChecks { hostname, name, env, labels, mounts, init } = checks;
        let without_init = ConfigChecks { hostname, name, env, labels, mounts, init: Ok(()) };
        let started = self.validate_start_config(config, fact, without_init);
        if started.is_err() || config.spec.init.is_none() {
            return started;
        }
        init
    }
}

/// A hostname that is refused is the reason given, whatever else is wrong with a configuration.
pub proof fn refused_hostnames_come_first(
    backend: LocalBackend,
    config: SandboxConfig,
    fact: PathFact,
    checks: ConfigChecks,
)
    requires
        checks.hostname is Err,
    ensures
        start_config_refusal(backend, config, fact, checks) == failure(checks.hostname),
        final_config_refusal(backend, config, fact, checks) == failure(checks.hostname),
{
}

/// What a start refuses a creation refuses too, and for the same reason.
pub proof fn creations_refuse_what_starts_refuse(
    backend: LocalBackend,
    config: SandboxConfig,
    fact: PathFact,
    checks: ConfigChecks,
)
    requires
        start_config_refusal(backend, config, fact, checks) is Some,
    ensures
        final_config_refusal(backend, config, fact, checks) == start_config_refusal(
            backend,
            config,
            fact,
            checks,
        ),
{
}

/// Records the profile that a sandbox was resolved to run under, before its configuration is
/// validated.
pub fn record_deployment_profile(config: &mut SandboxConfig, resolved: DeploymentProfile)
    ensures
        *final(config) == (SandboxConfig {
            spec: (SandboxSpec { deployment_profile: Some(resolved), ..old(config).spec }),
            ..*old(config)
        }),
{
    config.spec.deployment_profile = Some(resolved);
}

/// Refuses to fork from anything but a whole machine.
pub fn check_fork(config: &SandboxConfig) -> (r: MicrosandboxResult<()>)
    ensures
        failure(r) == if config.forked && config.checkpoint_restore is None {
            Some(ErrorView::InvalidConfig("forked requires a full snapshot restore"@))
        } else {
            None
        },
{
    if config.forked && config.checkpoint_restore.is_none() {
        return Err(
            MicrosandboxError::InvalidConfig("forked requires a full snapshot restore".to_owned()),
        );
    }
    Ok(())
}

/// The capacity of the root disk of a snapshot, which it has to state.
pub fn file_snapshot_capacity(virtual_size: Option<u64>) -> (r: MicrosandboxResult<u64>)
    ensures
        match virtual_size {
            Some(size) => r == Ok::<u64, MicrosandboxError>(size),
            None => failure(r) == Some(
                ErrorView::SnapshotIntegrity("file snapshot is missing its root-disk capacity"@),
            ),
        },
{
    match virtual_size {
        Some(size) => Ok(size),
        None => Err(
            MicrosandboxError::SnapshotIntegrity(
                "file snapshot is missing its root-disk capacity".to_owned(),
            ),
        ),
    }
}

/// How the sandbox process is to be owned: a machine that continues from a checkpoint never
/// depends on the process that creates it.
pub fn create_spawn_mode(config: &SandboxConfig, mode: SpawnMode) -> (r: SpawnMode)
    ensures
        r == if config.checkpoint_restore is Some {
            SpawnMode::Detached
        } else {
            mode
        },
{
    if config.checkpoint_restore.is_some() {
        SpawnMode::Detached
    } else {
        mode
    }
}

/// Whether the volumes that belong to a sandbox come from something captured.
pub fn owned_volumes_are_restored(config: &SandboxConfig) -> (r: bool)
    ensures
        r == (config.snapshot_parent is Some || config.checkpoint_restore is Some),
{
    config.snapshot_parent.is_some() || config.checkpoint_restore.is_some()
}

/// Drops what a restore was made from, once the machine runs: it is used up.
pub fn forget_restore(config: &mut SandboxConfig)
    ensures
        final(config).snapshot_upper_layers@.len() == 0,
        *final(config) == (SandboxConfig {
            checkpoint_restore: None,
            snapshot_upper_layers: final(config).snapshot_upper_layers,
            ..*old(config)
        }),
{
    config.checkpoint_restore = None;
    config.snapshot_upper_layers = Vec::new();
}

/// Whether the working directory of a sandbox is one in the guest.
pub enum WorkdirFact {
    Directory,
    /// It is something else.
    Other,
    /// The guest could not say, and why.
    Unknown(String),
}

/// Refuses a working directory that is none in the guest.
pub fn check_workdir(workdir: &str, fact: &WorkdirFact) -> (r: MicrosandboxResult<()>)
    ensures
        failure(r) == match *fact {
            WorkdirFact::Directory => None,
            WorkdirFact::Other => Some(
                ErrorView::InvalidConfig("workdir is not a directory in guest: "@ + workdir@),
            ),
            WorkdirFact::Unknown(cause) => Some(
                ErrorView::InvalidConfig(
                    "could not validate workdir in guest "@ + quoted_text(workdir@) + ": "@
                        + cause@,
                ),
            ),
        },
{
    match fact {
        WorkdirFact::Directory => Ok(()),
        WorkdirFact::Other => refusal("workdir is not a directory in guest: ", workdir),
        WorkdirFact::Unknown(cause) => {
            let mut message = "could not validate workdir in guest ".to_owned();
            message.append(quoted(workdir).as_str());
            message.append(": ");
            message.append(cause.as_str());
            Err(MicrosandboxError::InvalidConfig(message))
        },
    }
}

// ------------------------------------------------------------------------------------------------
// The root disk
// ------------------------------------------------------------------------------------------------

/// What the image cache says of the flat disk of an image.
pub enum FlatFact {
    /// It has none.
    Missing,
    /// Its name in the cache cannot be read, and why.
    BadDigest(String),
    /// It has one of this size.
    Published { virtual_size_bytes: u64 },
}

/// What else the root disk of a sandbox depends on.
pub struct DiskFacts {
    /// The name of a flat root disk in the directory of its sandbox.
    pub flat_filename: String,
    /// The size of a root disk where none is asked for.
    pub default_size_mib: u32,
    /// The flat disk of the image.
    pub flat: FlatFact,
    /// Whether the layered disk is there already.
    pub upper_exists: bool,
    /// Whether the disk image of the user is there.
    pub image_exists: bool,
    /// Whether the host is Windows.
    pub windows: bool,
}

/// How the root disk of a sandbox comes to be.
pub enum RootProvision {
    /// Write a flat disk from the image and the patches.
    PatchFlat { path: String, requested_mib: Option<u32> },
    /// Copy the flat disk of the image.
    CloneFlat { path: String, target_mib: u32, clone: FlatClone },
    /// The layers of the snapshot are in place.
    Layers,
    /// Copy the disk of the snapshot.
    Copy { from: String, to: String },
    /// The disk of the snapshot is in place.
    InPlace,
    /// Format a new disk.
    Format { path: String, size_mib: u32 },
    /// The disk is there already.
    Keep,
    /// The disk is guest memory.
    Memory,
    /// The disk is the user's own.
    UserDisk,
}

/// [`RootProvision`] with its text by view.
pub enum RootProvisionView {
    PatchFlat { path: Seq<char>, requested_mib: Option<u32> },
    CloneFlat { path: Seq<char>, target_mib: nat, clone: FlatClone },
    Layers,
    Copy { from: Seq<char>, to: Seq<char> },
    InPlace,
    Format { path: Seq<char>, size_mib: u32 },
    Keep,
    Memory,
    UserDisk,
}

impl View for RootProvision {
    type V = RootProvisionView;

    open spec fn view(&self) -> RootProvisionView {
        match *self {
            RootProvision::PatchFlat { path, requested_mib } => RootProvisionView::PatchFlat {
                path: path@,
                requested_mib,
            },
            RootProvision::CloneFlat { path, target_mib, clone } => RootProvisionView::CloneFlat {
                path: path@,
                target_mib: target_mib as nat,
                clone,
            },
            RootProvision::Layers => RootProvisionView::Layers,
            RootProvision::Copy { from, to } => RootProvisionView::Copy { from: from@, to: to@ },
            RootProvision::InPlace => RootProvisionView::InPlace,
            RootProvision::Format { path, size_mib } => RootProvisionView::Format {
                path: path@,
                size_mib,
            },
            RootProvision::Keep => RootProvisionView::Keep,
            RootProvision::Memory => RootProvisionView::Memory,
            RootProvision::UserDisk => RootProvisionView::UserDisk,
        }
    }
}

/// Whether a root disk is flat.
pub open spec fn is_flat(disk: Option<RootDisk>) -> bool {
    disk matches Some(RootDisk::Flat { .. })
}

/// Where the root disk of a sandbox is.
pub open spec fn writable_disk(disk: Option<RootDisk>, sandbox_dir: Seq<char>, facts: DiskFacts) -> Seq<
    char,
> {
    host_joined(
        sandbox_dir,
        if is_flat(disk) {
            facts.flat_filename@
        } else {
            "upper.ext4"@
        },
        facts.windows,
    )
}

/// What a flat root disk is refused for.
pub open spec fn flat_refusal(
    size_mib: Option<u32>,
    fstype: Option<String>,
    config: SandboxConfig,
    facts: DiskFacts,
) -> Option<ErrorView> {
    if fstype is Some && fstype->0@ != "ext4"@ {
        Some(
            ErrorView::InvalidConfig(
                "flat root disks currently require fstype=ext4, got "@ + fstype->0@,
            ),
        )
    } else if config.snapshot_upper_source is Some || config.snapshot_upper_layers@.len() > 0
        || config.spec.patches@.len() > 0 {
        None
    } else {
        match facts.flat {
            FlatFact::Missing => Some(
                ErrorView::Custom("flat rootfs was not published by the image pull"@),
            ),
            FlatFact::BadDigest(cause) => Some(
                ErrorView::Custom("invalid flat rootfs artifact digest in cache: "@ + cause@),
            ),
            FlatFact::Published { virtual_size_bytes } => if flat_target(
                virtual_size_bytes,
                size_mib,
                facts.default_size_mib,
            ) > DISK_LIMIT_MIB {
                Some(ErrorView::InvalidConfig("flat root disk size exceeds supported MiB range"@))
            } else {
                None
            },
        }
    }
}

/// How a root disk that does not start from a snapshot comes to be.
pub open spec fn fresh_provision(
    disk: Option<RootDisk>,
    patched: bool,
    sandbox_dir: Seq<char>,
    facts: DiskFacts,
) -> Result<RootProvisionView, ErrorView> {
    match disk {
        Some(RootDisk::Tmpfs { .. }) => Ok(RootProvisionView::Memory),
        Some(RootDisk::DiskImage { path }) => if facts.image_exists {
            Ok(RootProvisionView::UserDisk)
        } else {
            Err(ErrorView::InvalidConfig("root disk image not found: "@ + path@))
        },
        Some(RootDisk::Flat { size_mib, clone, .. }) => Ok(
            RootProvisionView::CloneFlat {
                path: writable_disk(disk, sandbox_dir, facts),
                target_mib: flat_target(
                    facts.flat->virtual_size_bytes,
                    size_mib,
                    facts.default_size_mib,
                ),
                clone,
            },
        ),
        _ => {
            let size_mib = match disk {
                Some(RootDisk::Managed { size_mib: Some(size) }) => size,
                _ => facts.default_size_mib,
            };
            if facts.upper_exists && !patched {
                Ok(RootProvisionView::Keep)
            } else {
                Ok(
                    RootProvisionView::Format {
                        path: writable_disk(disk, sandbox_dir, facts),
                        size_mib,
                    },
                )
            }
        },
    }
}

/// How the root disk of a sandbox comes to be, or why it cannot.
pub open spec fn provision(
    config: SandboxConfig,
    disk: Option<RootDisk>,
    sandbox_dir: Seq<char>,
    facts: DiskFacts,
) -> Result<RootProvisionView, ErrorView> {
    let patched = config.spec.patches@.len() > 0;
    let refused = match disk {
        Some(RootDisk::Flat { size_mib, fstype, .. }) => flat_refusal(
            size_mib,
            fstype,
            config,
            facts,
        ),
        _ => None,
    };
    if refused is Some {
        Err(refused->0)
    } else if is_flat(disk) && patched {
        Ok(
            RootProvisionView::PatchFlat {
                path: writable_disk(disk, sandbox_dir, facts),
                requested_mib: disk->0->Flat_size_mib,
            },
        )
    } else if config.snapshot_upper_layers@.len() > 0 {
        if patched {
            Err(ErrorView::InvalidConfig("patches cannot be combined with full snapshot restore"@))
        } else {
            Ok(RootProvisionView::Layers)
        }
    } else if config.snapshot_upper_source is Some {
        let from = config.snapshot_upper_source->0@;
        let to = writable_disk(disk, sandbox_dir, facts);
        if patched {
            Err(ErrorView::InvalidConfig("patches cannot be combined with from_snapshot"@))
        } else if host_components(from, facts.windows) == host_components(to, facts.windows) {
            Ok(RootProvisionView::InPlace)
        } else {
            Ok(RootProvisionView::Copy { from, to })
        }
    } else {
        fresh_provision(disk, patched, sandbox_dir, facts)
    }
}

/// Checks a flat root disk, and gives the size of a copy of the image's where one is made.
fn check_flat(
    size_mib: Option<u32>,
    fstype: &Option<String>,
    config: &SandboxConfig,
    facts: &DiskFacts,
) -> (r: MicrosandboxResult<Option<u32>>)
    ensures
        failure(r) == flat_refusal(size_mib, *fstype, *config, *facts),
        r matches Ok(target) ==> match target {
            Some(mib) => facts.flat is Published && mib == flat_target(
                facts.flat->virtual_size_bytes,
                size_mib,
                facts.default_size_mib,
            ) && config.spec.patches@.len() == 0 && config.snapshot_upper_layers@.len() == 0
                && config.snapshot_upper_source is None,
            None => config.snapshot_upper_source is Some || config.snapshot_upper_layers@.len() > 0
                || config.spec.patches@.len() > 0,
        },
{
    if let Some(fs) = fstype {
        if !same(fs.as_str(), "ext4") {
            let mut message = "flat root disks currently require fstype=ext4, got ".to_owned();
            message.append(fs.as_str());
            return Err(MicrosandboxError::InvalidConfig(message));
        }
    }
    if config.snapshot_upper_source.is_some() || config.snapshot_upper_layers.len() > 0
        || config.spec.patches.len() > 0 {
        return Ok(None);
    }
    match &facts.flat {
        FlatFact::Missing => Err(
            MicrosandboxError::Custom("flat rootfs was not published by the image pull".to_owned()),
        ),
        FlatFact::BadDigest(cause) => {
            let mut message = "invalid flat rootfs artifact digest in cache: ".to_owned();
            message.append(cause.as_str());
            Err(MicrosandboxError::Custom(message))
        },
        FlatFact::Published { virtual_size_bytes } => {
            match flat_root_size(*virtual_size_bytes, size_mib, facts.default_size_mib) {
                Ok(mib) => Ok(Some(mib)),
                Err(e) => Err(e),
            }
        },
    }
}

/// Decides how the root disk of a sandbox that boots an image comes to be.
pub fn provision_root(
    config: &SandboxConfig,
    disk: &Option<RootDisk>,
    sandbox_dir: &str,
    facts: &DiskFacts,
) -> (r: MicrosandboxResult<RootProvision>)
    ensures
        match provision(*config, *disk, sandbox_dir@, *facts) {
            Ok(view) => r matches Ok(made) && made@ == view,
            Err(e) => failure(r) == Some(e),
        },
{
    let patched = config.spec.patches.len() > 0;
    let flat = match disk {
        Some(RootDisk::Flat { .. }) => true,
        _ => false,
    };
    let path = if flat {
        host_join(sandbox_dir, facts.flat_filename.as_str(), facts.windows)
    } else {
        host_join(sandbox_dir, "upper.ext4", facts.windows)
    };
    if let Some(RootDisk::Flat { size_mib, clone, fstype }) = disk {
        match check_flat(*size_mib, fstype, config, facts) {
            Err(e) => {
                return Err(e);
            },
            Ok(Some(target_mib)) => {
                return Ok(RootProvision::CloneFlat { path, target_mib, clone: clone.copied() });
            },
            Ok(None) => {},
        }
        if patched {
            return Ok(RootProvision::PatchFlat { path, requested_mib: *size_mib });
        }
    }
    if config.snapshot_upper_layers.len() > 0 {
        if patched {
            return Err(
                MicrosandboxError::InvalidConfig(
                    "patches cannot be combined with full snapshot restore".to_owned(),
                ),
            );
        }
        return Ok(RootProvision::Layers);
    }
    if let Some(source) = &config.snapshot_upper_source {
        if patched {
            return Err(
                MicrosandboxError::InvalidConfig(
                    "patches cannot be combined with from_snapshot".to_owned(),
                ),
            );
        }
        if same_path(source.as_str(), path.as_str(), facts.windows) {
            return Ok(RootProvision::InPlace);
        }
        return Ok(RootProvision::Copy { from: source.clone(), to: path });
    }
    match disk {
        Some(RootDisk::Tmpfs { .. }) => Ok(RootProvision::Memory),
        Some(RootDisk::DiskImage { path: image }) => {
            if facts.image_exists {
                Ok(RootProvision::UserDisk)
            } else {
                let mut message = "root disk image not found: ".to_owned();
                message.append(image.as_str());
                Err(MicrosandboxError::InvalidConfig(message))
            }
        },
        Some(RootDisk::Managed { size_mib: Some(size) }) => {
            if facts.upper_exists && !patched {
                Ok(RootProvision::Keep)
            } else {
                Ok(RootProvision::Format { path, size_mib: *size })
            }
        },
        _ => {
            if facts.upper_exists && !patched {
                Ok(RootProvision::Keep)
            } else {
                Ok(RootProvision::Format { path, size_mib: facts.default_size_mib })
            }
        },
    }
}

/// Patches are never dropped: a disk that is made while there are any holds them, or the creation
/// is refused. Guest memory and the user's own disks take no patches, and are not asked to.
pub proof fn patches_are_never_dropped(
    config: SandboxConfig,
    disk: Option<RootDisk>,
    sandbox_dir: Seq<char>,
    facts: DiskFacts,
)
    requires
        config.spec.patches@.len() > 0,
        !(disk matches Some(RootDisk::Tmpfs { .. })),
        !(disk matches Some(RootDisk::DiskImage { .. })),
    ensures
        match provision(config, disk, sandbox_dir, facts) {
            Ok(made) => made is PatchFlat || made is Format,
            Err(_) => true,
        },
{
}

/// The disks of a snapshot are never overwritten: a restore uses its layers, uses its disk where
/// it is, or copies it, or the creation is refused.
pub proof fn snapshot_disks_are_kept(
    config: SandboxConfig,
    disk: Option<RootDisk>,
    sandbox_dir: Seq<char>,
    facts: DiskFacts,
)
    requires
        config.snapshot_upper_source is Some || config.snapshot_upper_layers@.len() > 0,
        config.spec.patches@.len() == 0,
    ensures
        match provision(config, disk, sandbox_dir, facts) {
            Ok(made) => made is Layers || made is InPlace || made is Copy,
            Err(_) => true,
        },
{
}

/// An image with the size of its flat root disk set, where it has one.
pub open spec fn with_flat_size(image: RootfsSource, target_mib: u32) -> RootfsSource {
    match image {
        RootfsSource::Oci(OciRootfsSource {
            reference,
            root_disk: Some(RootDisk::Flat { size_mib, clone, fstype }),
        }) => RootfsSource::Oci(
            OciRootfsSource {
                reference,
                root_disk: Some(RootDisk::Flat { size_mib: Some(target_mib), clone, fstype }),
            },
        ),
        _ => image,
    }
}

/// Why a root that boots an image is refused for want of its stitched disk.
pub open spec fn vmdk_refusal(layered: bool, path: Seq<char>, present: bool) -> Option<ErrorView> {
    if layered && !present {
        Some(ErrorView::Custom("VMDK not materialized: "@ + path))
    } else {
        None
    }
}

/// Refuses a layered root whose stitched disk is not there.
pub fn check_vmdk(layered: bool, path: &str, present: bool) -> (r: MicrosandboxResult<()>)
    ensures
        failure(r) == vmdk_refusal(layered, path@, present),
{
    if layered && !present {
        let mut message = "VMDK not materialized: ".to_owned();
        message.append(path);
        return Err(MicrosandboxError::Custom(message));
    }
    Ok(())
}

/// What is known of the image that was resolved for a sandbox.
pub struct ImageFacts {
    pub manifest_digest: String,
    /// What the check of init processes says of the configuration's, now that the defaults of the
    /// image are in it.
    pub init: MicrosandboxResult<()>,
    /// Where the stitched disk of the image is, and whether it is there.
    pub vmdk_path: String,
    pub vmdk_present: bool,
}

/// Why no root can be made from a resolved image: it is not the image that a restore depends on,
/// the init process is refused, or the stitched disk is missing.
pub open spec fn image_refusal(
    config: SandboxConfig,
    disk: Option<RootDisk>,
    image: ImageFacts,
) -> Option<ErrorView> {
    earlier(
        manifest_refusal(expected_manifest(config), image.manifest_digest@),
        earlier(
            if config.spec.init is Some {
                failure(image.init)
            } else {
                None
            },
            vmdk_refusal(
                materialization_of(disk) == RootfsMaterialization::Layered,
                image.vmdk_path@,
                image.vmdk_present,
            ),
        ),
    )
}

/// How the root of a sandbox that boots a resolved image comes to be, or the first reason why it
/// cannot.
pub open spec fn root_plan(
    config: SandboxConfig,
    disk: Option<RootDisk>,
    image: ImageFacts,
    sandbox_dir: Seq<char>,
    facts: DiskFacts,
) -> Result<RootProvisionView, ErrorView> {
    match image_refusal(config, disk, image) {
        Some(e) => Err(e),
        None => provision(config, disk, sandbox_dir, facts),
    }
}

/// Decides how the root of a sandbox comes to be once its image was resolved. `None` where the
/// sandbox boots no image.
pub fn plan_root(
    config: &SandboxConfig,
    image: ImageFacts,
    sandbox_dir: &str,
    facts: &DiskFacts,
) -> (r: MicrosandboxResult<Option<RootProvision>>)
    ensures
        match config.spec.image {
            RootfsSource::Oci(oci) => match root_plan(
                *config,
                oci.root_disk,
                image,
                sandbox_dir@,
                *facts,
            ) {
                Ok(view) => r matches Ok(Some(made)) && made@ == view,
                Err(e) => failure(r) == Some(e),
            },
            _ => r matches Ok(None),
        },
{
    let oci = match &config.spec.image {
        RootfsSource::Oci(oci) => oci,
        _ => {
            return Ok(None);
        },
    };
    let expected = expected_snapshot_manifest(config);
    if let Err(e) = check_snapshot_manifest(&expected, image.manifest_digest.as_str()) {
        return Err(e);
    }
    if config.spec.init.is_some() {
        if let Err(e) = image.init {
            return Err(e);
        }
    }
    let layered = image_materialization(&oci.root_disk) == RootfsMaterialization::Layered;
    if let Err(e) = check_vmdk(layered, image.vmdk_path.as_str(), image.vmdk_present) {
        return Err(e);
    }
    match provision_root(config, &oci.root_disk, sandbox_dir, facts) {
        Ok(made) => Ok(Some(made)),
        Err(e) => Err(e),
    }
}

/// A restored root is made only from the image that the restore depends on.
pub proof fn restored_roots_stand_on_their_image(
    config: SandboxConfig,
    disk: Option<RootDisk>,
    image: ImageFacts,
    sandbox_dir: Seq<char>,
    facts: DiskFacts,
)
    requires
        root_plan(config, disk, image, sandbox_dir, facts) is Ok,
        config.snapshot_upper_source is Some || config.checkpoint_restore is Some
            || config.snapshot_upper_layers@.len() > 0,
        config.manifest_digest is Some,
    ensures
        image.manifest_digest@ == config.manifest_digest->0@,
{
}

/// The size that a flat root disk was made with, where one was made. `patched_mib` is that of a
/// disk that was written from patches.
pub open spec fn flat_size_made(how: RootProvision, patched_mib: u32) -> Option<u32> {
    match how {
        RootProvision::PatchFlat { .. } => Some(patched_mib),
        RootProvision::CloneFlat { target_mib, .. } => Some(target_mib),
        _ => None,
    }
}

/// Records the root that was made: the manifest it stands on and the size of a flat disk. The disk
/// of a snapshot that was copied or is in place is used up.
pub fn record_root(
    config: &mut SandboxConfig,
    how: &RootProvision,
    patched_mib: u32,
    manifest_digest: String,
)
    ensures
        *final(config) == (SandboxConfig {
            spec: (SandboxSpec {
                image: match flat_size_made(*how, patched_mib) {
                    Some(mib) => with_flat_size(old(config).spec.image, mib),
                    None => old(config).spec.image,
                },
                ..old(config).spec
            }),
            snapshot_upper_source: if how is Copy || how is InPlace {
                None
            } else {
                old(config).snapshot_upper_source
            },
            manifest_digest: Some(manifest_digest),
            ..*old(config)
        }),
{
    let made = match how {
        RootProvision::PatchFlat { .. } => Some(patched_mib),
        RootProvision::CloneFlat { target_mib, .. } => Some(*target_mib),
        _ => None,
    };
    if let Some(mib) = made {
        if let RootfsSource::Oci(oci) = &mut config.spec.image {
            if let Some(RootDisk::Flat { size_mib, .. }) = &mut oci.root_disk {
                *size_mib = Some(mib);
            }
        }
    }
    match how {
        RootProvision::Copy { .. } | RootProvision::InPlace => {
            config.snapshot_upper_source = None;
        },
        _ => {},
    }
    config.manifest_digest = Some(manifest_digest);
}

/// A directory at the top of a new disk, with what it holds.
pub struct TopDirectory<T> {
    pub name: String,
    pub entries: Vec<T>,
}

/// The top directories of a disk that is layered over an image: what was patched, and an empty
/// one to work in.
pub fn build_overlay_upper_tree<T>(patched: Option<Vec<T>>) -> (r: Vec<TopDirectory<T>>)
    ensures
        r@.len() == 2,
        r@[0].name@ == "upper"@,
        r@[0].entries@ == match patched {
            Some(entries) => entries@,
            None => Seq::empty(),
        },
        r@[1].name@ == "work"@,
        r@[1].entries@.len() == 0,
{
    let entries = match patched {
        Some(entries) => entries,
        None => Vec::new(),
    };
    let mut out: Vec<TopDirectory<T>> = Vec::new();
    out.push(TopDirectory { name: "upper".to_owned(), entries });
    out.push(TopDirectory { name: "work".to_owned(), entries: Vec::new() });
    out
}

/// The bytes of a disk.
pub fn upper_size_bytes(size_mib: u32) -> (r: u64)
    ensures
        r == size_mib * 1048576,
{
    size_mib as u64 * 1048576
}

// ------------------------------------------------------------------------------------------------
// What is decided
// ------------------------------------------------------------------------------------------------

/// The reason that is given is the first there is: hostname, name, socket, root filesystem,
/// environment, labels, mounts, and the init process of a sandbox to create that has one. Where none
/// of these objects, the configuration is accepted.
pub proof fn the_first_reason_is_given(
    backend: LocalBackend,
    config: SandboxConfig,
    fact: PathFact,
    checks: ConfigChecks,
)
    ensures
        ({
            let socket = socket_refusal(backend, config.spec.name@);
            let root = rootfs_refusal(config.spec.image, fact);
            let start = start_config_refusal(backend, config, fact, checks);
            let create = final_config_refusal(backend, config, fact, checks);
            &&& checks.hostname is Err ==> start == Some(checks.hostname->Err_0@)
            &&& checks.hostname is Ok && checks.name is Err ==> start == Some(checks.name->Err_0@)
            &&& checks.hostname is Ok && checks.name is Ok && socket is Some ==> start == socket
            &&& checks.hostname is Ok && checks.name is Ok && socket is None && root is Some
                ==> start == root
            &&& checks.hostname is Ok && checks.name is Ok && socket is None && root is None
                && checks.env is Err ==> start == Some(checks.env->Err_0@)
            &&& checks.hostname is Ok && checks.name is Ok && socket is None && root is None
                && checks.env is Ok && checks.labels is Err ==> start == Some(
                checks.labels->Err_0@,
            )
            &&& checks.hostname is Ok && checks.name is Ok && socket is None && root is None
                && checks.env is Ok && checks.labels is Ok && checks.mounts is Err ==> start
                == Some(checks.mounts->Err_0@)
            &&& start is None <==> checks.hostname is Ok && checks.name is Ok && socket is None
                && root is None && checks.env is Ok && checks.labels is Ok && checks.mounts is Ok
            &&& start is Some ==> create == start
            &&& start is None && config.spec.init is Some && checks.init is Err ==> create == Some(
                checks.init->Err_0@,
            )
            &&& create is None <==> start is None && (config.spec.init is None || checks.init is Ok)
        }),
{
}

/// A root filesystem is taken exactly where it is what it is said to be: a directory for a bind
/// root, a regular file for a disk image; an image is not looked for on the host.
pub proof fn roots_are_what_they_are_said_to_be(rootfs: RootfsSource, fact: PathFact)
    ensures
        rootfs_refusal(rootfs, fact) is None <==> match rootfs {
            RootfsSource::Bind { .. } => fact == PathFact::Directory,
            RootfsSource::DiskImage { .. } => fact == PathFact::File,
            RootfsSource::Oci(_) => true,
        },
        rootfs_refusal(rootfs, fact) is Some ==> rootfs_refusal(rootfs, fact)->0 is InvalidConfig,
{
}

/// A name has room exactly where one of its sockets fits in a socket address.
pub proof fn names_need_a_socket_that_fits(backend: LocalBackend, name: Seq<char>)
    ensures
        ({
            let paths = socket_candidates(backend.run_dir@, backend.sandboxes_dir@, name);
            socket_refusal(backend, name) is None <==> first_fit(
                paths,
                backend.socket_path_capacity,
            ) is Some
        }),
{
}

/// A restore expects a snapshot of the root disk that the configuration has, and can be of no disk
/// of the user's own and of no root that is not an image.
pub proof fn restores_expect_their_layout(image: RootfsSource)
    ensures
        match image {
            RootfsSource::Oci(oci) => match oci.root_disk {
                None => expected_layout(image) == Ok::<SnapshotRootDisk, ErrorView>(
                    SnapshotRootDisk::Managed,
                ),
                Some(RootDisk::Managed { .. }) => expected_layout(image) == Ok::<
                    SnapshotRootDisk,
                    ErrorView,
                >(SnapshotRootDisk::Managed),
                Some(RootDisk::Flat { .. }) => expected_layout(image) == Ok::<
                    SnapshotRootDisk,
                    ErrorView,
                >(SnapshotRootDisk::Flat),
                Some(RootDisk::Tmpfs { size_mib }) => expected_layout(image) == Ok::<
                    SnapshotRootDisk,
                    ErrorView,
                >(SnapshotRootDisk::Tmpfs { size_mib }),
                Some(RootDisk::DiskImage { .. }) => expected_layout(image) is Err,
            },
            _ => expected_layout(image) is Err,
        },
{
}

/// An archive is refused for the first reason: its user where none is asked for, its root disk, a
/// machine state where it should hold disks alone.
pub proof fn archives_are_refused_in_order(config: SandboxConfig, archive: ArchiveContents)
    ensures
        ({
            let asked = config.spec.runtime.user is Some;
            let refused = archive_refusal(config, archive);
            let confused = archive.checkpoint_restore is Some && archive.state
                == SnapshotState::File;
            &&& !asked && archive.user is Err ==> refused == Some(archive.user->Err_0@)
            &&& (asked || archive.user is Ok) && archive.root_disk is Err ==> refused == Some(
                archive.root_disk->Err_0@,
            )
            &&& (asked || archive.user is Ok) && archive.root_disk is Ok ==> (refused is Some
                <==> confused)
        }),
{
}

/// What an archive makes of a configuration: its image, its root disk, its disks, its manifest and
/// its snapshot, its user where none was asked for; and, where no machine was captured, its layers,
/// or the one disk that it holds. Everything else stays.
pub proof fn archives_are_adopted(
    before: SandboxConfig,
    after: SandboxConfig,
    archive: ArchiveContents,
    stage: Seq<char>,
    flat_filename: Seq<char>,
    windows: bool,
)
    requires
        adopted(before, after, archive, stage, flat_filename, windows),
        archive_refusal(before, archive) is None,
    ensures
        after.spec.image is Oci,
        after.spec.image->Oci_0.reference == archive.reference,
        after.spec.image->Oci_0.root_disk == archive.root_disk->Ok_0,
        before.spec.runtime.user is Some ==> after.spec.runtime.user == before.spec.runtime.user,
        before.spec.runtime.user is None ==> after.spec.runtime.user == archive.user->Ok_0,
        after.spec.mounts == archive.disks.mounts,
        after.owned_volumes == archive.disks.owned_volumes,
        after.manifest_digest == Some(archive.manifest_digest),
        after.snapshot_parent == Some(archive.snapshot_id),
        archive.checkpoint_restore is None && archive.upper_layers@.len() > 0
            ==> after.snapshot_upper_layers == archive.upper_layers,
        archive.checkpoint_restore is None && archive.upper_layers@.len() == 0 && archive.state
            == SnapshotState::File ==> after.snapshot_upper_source is Some
            && after.snapshot_upper_source->0@ == host_joined(
            stage,
            if archive.layout == SnapshotRootDisk::Flat {
                flat_filename
            } else {
                "upper.ext4"@
            },
            windows,
        ),
        archive.checkpoint_restore is Some ==> after.snapshot_upper_layers
            == before.snapshot_upper_layers && after.snapshot_upper_source
            == before.snapshot_upper_source,
        after.checkpoint_restore == before.checkpoint_restore,
        after.startup_command_requested == before.startup_command_requested,
        after.spec.name == before.spec.name,
        after.spec.resources == before.spec.resources,
        after.spec.env == before.spec.env,
        after.spec.network == before.spec.network,
        after.spec.init == before.spec.init,
        after.spec.runtime.workdir == before.spec.runtime.workdir,
        after.spec.runtime.cmd == before.spec.runtime.cmd,
        after.spec.runtime.entrypoint == before.spec.runtime.entrypoint,
{
}

/// When the files of an archive move, every path that points below the stage points below the new
/// place, and nothing else of what a configuration says changes.
pub proof fn paths_follow_their_files(
    mount_before: VolumeMount,
    mount_after: VolumeMount,
    restore_before: Option<CheckpointRestore>,
    restore_after: Option<CheckpointRestore>,
    path_before: Option<String>,
    path_after: Option<String>,
    stage: Seq<char>,
    child: Seq<char>,
    windows: bool,
)
    requires
        mount_moved(mount_before, mount_after, stage, child, windows),
        restore_moved(restore_before, restore_after, stage, child, windows),
        path_moved(path_before, path_after, stage, child, windows),
    ensures
        mount_before is DiskImage <==> mount_after is DiskImage,
        mount_before is DiskImage ==> mount_after->DiskImage_host@ == moved(
            mount_before->DiskImage_host@,
            stage,
            child,
            windows,
        ) && mount_after->DiskImage_guest == mount_before->DiskImage_guest
            && mount_after->DiskImage_format == mount_before->DiskImage_format
            && mount_after->DiskImage_fstype == mount_before->DiskImage_fstype
            && mount_after->DiskImage_options == mount_before->DiskImage_options,
        !(mount_before is DiskImage) ==> mount_after == mount_before,
        restore_before is Some <==> restore_after is Some,
        restore_before is Some ==> restore_after->0.closure@ == moved(
            restore_before->0.closure@,
            stage,
            child,
            windows,
        ) && restore_after->0.checkpoint_root == restore_before->0.checkpoint_root
            && restore_after->0.checkpoint_id == restore_before->0.checkpoint_id,
        path_before is Some <==> path_after is Some,
        path_before is Some ==> path_after->0@ == moved(path_before->0@, stage, child, windows),
{
}

/// A flat root disk is taken exactly where it is to hold ext4 and either starts from something else
/// than the image's own flat disk, or that disk is there and the size is one that a disk can have.
pub proof fn flat_disks_are_taken_where_they_can_be_made(
    size_mib: Option<u32>,
    fstype: Option<String>,
    config: SandboxConfig,
    facts: DiskFacts,
)
    ensures
        flat_refusal(size_mib, fstype, config, facts) is None <==> {
            &&& fstype is None || fstype->0@ == "ext4"@
            &&& config.snapshot_upper_source is Some || config.snapshot_upper_layers@.len() > 0
                || config.spec.patches@.len() > 0 || (facts.flat is Published && flat_target(
                facts.flat->virtual_size_bytes,
                size_mib,
                facts.default_size_mib,
            ) <= 0xffff_ffff)
        },
{
}

/// A fresh sandbox gets the root disk that is asked for: memory, the user's own disk where it is
/// there, a copy of the image's flat disk made in the way and the size that are asked for, or a new
/// disk of its size in its directory, unless there is one already and nothing is to be patched.
pub proof fn fresh_roots_are_what_is_asked(
    config: SandboxConfig,
    disk: Option<RootDisk>,
    sandbox_dir: Seq<char>,
    facts: DiskFacts,
)
    requires
        config.snapshot_upper_source is None,
        config.snapshot_upper_layers@.len() == 0,
    ensures
        ({
            let made = provision(config, disk, sandbox_dir, facts);
            let patched = config.spec.patches@.len() > 0;
            let upper = host_joined(sandbox_dir, "upper.ext4"@, facts.windows);
            let flat = host_joined(sandbox_dir, facts.flat_filename@, facts.windows);
            match disk {
                Some(RootDisk::Tmpfs { .. }) => made == Ok::<RootProvisionView, ErrorView>(
                    RootProvisionView::Memory,
                ),
                Some(RootDisk::DiskImage { path }) => (facts.image_exists ==> made == Ok::<
                    RootProvisionView,
                    ErrorView,
                >(RootProvisionView::UserDisk)) && (!facts.image_exists ==> made == Err::<
                    RootProvisionView,
                    ErrorView,
                >(ErrorView::InvalidConfig("root disk image not found: "@ + path@))),
                Some(RootDisk::Flat { size_mib, clone, fstype }) => {
                    let refused = flat_refusal(size_mib, fstype, config, facts);
                    &&& refused is Some ==> made == Err::<RootProvisionView, ErrorView>(refused->0)
                    &&& refused is None && patched ==> made == Ok::<RootProvisionView, ErrorView>(
                        RootProvisionView::PatchFlat { path: flat, requested_mib: size_mib },
                    )
                    &&& refused is None && !patched ==> made == Ok::<RootProvisionView, ErrorView>(
                        RootProvisionView::CloneFlat {
                            path: flat,
                            target_mib: flat_target(
                                facts.flat->virtual_size_bytes,
                                size_mib,
                                facts.default_size_mib,
                            ),
                            clone,
                        },
                    )
                },
                Some(RootDisk::Managed { size_mib }) => made == Ok::<RootProvisionView, ErrorView>(
                    if facts.upper_exists && !patched {
                        RootProvisionView::Keep
                    } else {
                        RootProvisionView::Format {
                            path: upper,
                            size_mib: if size_mib is Some {
                                size_mib->0
                            } else {
                                facts.default_size_mib
                            },
                        }
                    },
                ),
                None => made == Ok::<RootProvisionView, ErrorView>(
                    if facts.upper_exists && !patched {
                        RootProvisionView::Keep
                    } else {
                        RootProvisionView::Format { path: upper, size_mib: facts.default_size_mib }
                    },
                ),
            }
        }),
{
}

/// A sandbox that continues from a snapshot uses what the snapshot left: its layers as they are,
/// else its disk, in place where it is in place already and copied to its place otherwise. Patches
/// do not go with either, save on a flat disk, which is written anew.
pub proof fn restored_roots_use_their_snapshot(
    config: SandboxConfig,
    disk: Option<RootDisk>,
    sandbox_dir: Seq<char>,
    facts: DiskFacts,
)
    requires
        config.snapshot_upper_source is Some || config.snapshot_upper_layers@.len() > 0,
        disk is Some && disk->0 is Flat ==> disk->0->Flat_fstype is None
            || disk->0->Flat_fstype->0@ == "ext4"@,
    ensures
        ({
            let made = provision(config, disk, sandbox_dir, facts);
            let patched = config.spec.patches@.len() > 0;
            let flat = disk is Some && disk->0 is Flat;
            let to = host_joined(
                sandbox_dir,
                if flat {
                    facts.flat_filename@
                } else {
                    "upper.ext4"@
                },
                facts.windows,
            );
            &&& patched && flat ==> made == Ok::<RootProvisionView, ErrorView>(
                RootProvisionView::PatchFlat {
                    path: to,
                    requested_mib: disk->0->Flat_size_mib,
                },
            )
            &&& patched && !flat ==> made is Err
            &&& !patched && config.snapshot_upper_layers@.len() > 0 ==> made == Ok::<
                RootProvisionView,
                ErrorView,
            >(RootProvisionView::Layers)
            &&& !patched && config.snapshot_upper_layers@.len() == 0 ==> ({
                let from = config.snapshot_upper_source->0@;
                let in_place = host_components(from, facts.windows) == host_components(
                    to,
                    facts.windows,
                );
                &&& in_place ==> made == Ok::<RootProvisionView, ErrorView>(
                    RootProvisionView::InPlace,
                )
                &&& !in_place ==> made == Ok::<RootProvisionView, ErrorView>(
                    RootProvisionView::Copy { from, to },
                )
            })
        }),
{
}

/// A resolved image is refused for the first reason: it is not the one that a restore depends on,
/// its init process is refused, its stitched disk is missing though it is layered.
pub proof fn images_are_refused_in_order(
    config: SandboxConfig,
    disk: Option<RootDisk>,
    image: ImageFacts,
    sandbox_dir: Seq<char>,
    facts: DiskFacts,
)
    ensures
        ({
            let refused = image_refusal(config, disk, image);
            let other = manifest_refusal(expected_manifest(config), image.manifest_digest@);
            let layered = !(disk is Some && disk->0 is Flat);
            let plan = root_plan(config, disk, image, sandbox_dir, facts);
            &&& other is Some ==> refused == other
            &&& other is None && config.spec.init is Some && image.init is Err ==> refused == Some(
                image.init->Err_0@,
            )
            &&& other is None && (config.spec.init is None || image.init is Ok) ==> (refused is Some
                <==> layered && !image.vmdk_present)
            &&& refused is Some ==> plan == Err::<RootProvisionView, ErrorView>(refused->0)
            &&& refused is None ==> plan == provision(config, disk, sandbox_dir, facts)
        }),
{
}

/// Recording the size of a flat disk changes that size and nothing else; other roots have no such
/// size.
pub proof fn only_the_flat_size_changes(image: RootfsSource, mib: u32)
    ensures
        ({
            let after = with_flat_size(image, mib);
            let flat = image is Oci && image->Oci_0.root_disk is Some
                && image->Oci_0.root_disk->0 is Flat;
            &&& !flat ==> after == image
            &&& flat ==> {
                let old_disk = image->Oci_0.root_disk->0;
                let new_disk = after->Oci_0.root_disk->0;
                &&& after is Oci && after->Oci_0.reference == image->Oci_0.reference
                &&& after->Oci_0.root_disk is Some && new_disk is Flat
                &&& new_disk->Flat_size_mib == Some(mib)
                &&& new_disk->Flat_clone == old_disk->Flat_clone
                &&& new_disk->Flat_fstype == old_disk->Flat_fstype
            }
        }),
{
}

/// The size that is recorded is that of the flat disk that was made: the one it was written with,
/// or the one it was copied to.
pub proof fn flat_sizes_are_those_made(how: RootProvision, patched_mib: u32)
    ensures
        match how {
            RootProvision::PatchFlat { .. } => flat_size_made(how, patched_mib) == Some(
                patched_mib,
            ),
            RootProvision::CloneFlat { target_mib, .. } => flat_size_made(how, patched_mib) == Some(
                target_mib,
            ),
            _ => flat_size_made(how, patched_mib) is None,
        },
{
}

/// A provision is seen as what it is, with each path in its place.
pub proof fn provisions_are_seen_as_they_are(how: RootProvision)
    ensures
        match how {
            RootProvision::Copy { from, to } => how@ == (RootProvisionView::Copy {
                from: from@,
                to: to@,
            }),
            RootProvision::Format { path, size_mib } => how@ == (RootProvisionView::Format {
                path: path@,
                size_mib,
            }),
            RootProvision::PatchFlat { path, requested_mib } => how@ == (
            RootProvisionView::PatchFlat { path: path@, requested_mib }),
            RootProvision::CloneFlat { path, target_mib, clone } => how@ == (
            RootProvisionView::CloneFlat { path: path@, target_mib: target_mib as nat, clone }),
            RootProvision::Layers => how@ is Layers,
            RootProvision::InPlace => how@ is InPlace,
            RootProvision::Keep => how@ is Keep,
            RootProvision::Memory => how@ is Memory,
            RootProvision::UserDisk => how@ is UserDisk,
        },
{
}

/// A restore that was not completed is refused with the way out.
pub proof fn incomplete_restores_are_refused(name: Seq<char>)
    ensures
        incomplete_restore(name) == ErrorView::InvalidConfig(
            "sandbox "@ + quoted_text(name)
                + " has an incomplete restore; remove and recreate it from the snapshot; refusing a cold boot"@,
        ),
{
}

/// A root that is not what it is said to be, and one that no snapshot restores, are refused with
/// the place or the reason.
pub proof fn refused_roots_say_why(rootfs: RootfsSource, fact: PathFact)
    ensures
        rootfs is Bind && fact == PathFact::Missing ==> rootfs_refusal(rootfs, fact) == Some(
            ErrorView::InvalidConfig(
                "rootfs bind path does not exist: "@ + rootfs->Bind_path@,
            ),
        ),
        rootfs is Bind && fact != PathFact::Missing && fact != PathFact::Directory
            ==> rootfs_refusal(rootfs, fact) == Some(
            ErrorView::InvalidConfig(
                "rootfs bind path is not a directory: "@ + rootfs->Bind_path@,
            ),
        ),
        rootfs is DiskImage && fact == PathFact::Missing ==> rootfs_refusal(rootfs, fact) == Some(
            ErrorView::InvalidConfig("disk image does not exist: "@ + rootfs->DiskImage_path@),
        ),
        rootfs is DiskImage && fact != PathFact::Missing && fact != PathFact::File
            ==> rootfs_refusal(rootfs, fact) == Some(
            ErrorView::InvalidConfig(
                "disk image is not a regular file: "@ + rootfs->DiskImage_path@,
            ),
        ),
        !(rootfs is Oci) ==> expected_layout(rootfs) == Err::<SnapshotRootDisk, ErrorView>(
            ErrorView::SnapshotIntegrity("snapshot restore did not resolve to an OCI rootfs"@),
        ),
        rootfs is Oci && rootfs->Oci_0.root_disk is Some && rootfs->Oci_0.root_disk->0 is DiskImage
            ==> expected_layout(rootfs) == Err::<SnapshotRootDisk, ErrorView>(
            ErrorView::SnapshotIntegrity(
                "snapshot descriptor cannot select a user-owned disk-image root"@,
            ),
        ),
{
}

} // verus!
