//! Creating a sandbox: what is refused, how its disks come to be, how its boot is awaited.

use microsandbox::agent_socket::LocalBackend;
use microsandbox::catalog::compare_and_set_sandbox_status;
use microsandbox::create::{
    adopt_archive, adopt_checkpoint, adopt_disks, adopt_machine, build_overlay_upper_tree, check_fork, check_vmdk, check_workdir,
    create_spawn_mode, file_snapshot_capacity, forget_restore, owned_volumes_are_restored,
    plan_root, provision_root, record_deployment_profile, record_root, relocate_archive_config,
    snapshot_root_layout_from_config, upper_size_bytes, AdditionalDisks, ArchiveContents,
    CapturedMachine, CheckpointParts, ChildStageGuard, ConfigChecks, DiskFacts, FlatFact,
    ImageFacts, PathFact, RootProvision, SnapshotRootDisk, SnapshotState,
    WorkdirFact,
};
use microsandbox::creation::{
    CreateEvent, CreatePlan, CreateStep, Creation, RestoreSources, SnapshotParts, Storage,
};
use microsandbox::error::{BootError, BootErrorStage, MicrosandboxError, MicrosandboxResult};
use microsandbox::images::flat_root_size;
use microsandbox::records::{
    complete_sandbox_restore, insert_sandbox_record_with_status, insert_starting_sandbox_record,
    replace_oci_manifest_pin, DesiredState, ManifestPin, ManifestRow, PIN_MODE, PIN_UPPER_FSTYPE,
};
use microsandbox::relay::{
    preparation_error, readiness_timeout_error, relay_readiness_timeout, relay_sleep_ms,
    restore_deadline_error, synthetic_boot_error, unclean_error, unrecorded_run_error, BootEvent,
    BootPlan, BootStep, RelayEvent, RelayFailure, RelayStep, AGENT_RELAY_READY_TIMEOUT,
};
use microsandbox::spawn::SpawnMode;
use microsandbox::types::{
    CheckpointRestore, DeploymentProfile, DiskImageFormat, FlatClone, HandoffInit, MountOptions,
    OciRootfsSource, RootDisk, RootfsSource, SandboxConfig, SandboxResources, SandboxSpec,
    SandboxStatus, VolumeMount,
};

fn resources(cpus: u8, memory_mib: u32, max_cpus: u8, max_memory_mib: u32) -> SandboxResources {
    SandboxResources { cpus, memory_mib, max_cpus, max_memory_mib }
}

fn config_with(name: &str, image: RootfsSource) -> SandboxConfig {
    SandboxConfig::new(SandboxSpec::new(name.into(), image, resources(1, 512, 1, 512)))
}

fn oci(root_disk: Option<RootDisk>) -> RootfsSource {
    RootfsSource::Oci(OciRootfsSource {
        reference: "docker.io/library/alpine".into(),
        root_disk,
    })
}

fn bind(path: &str) -> RootfsSource {
    RootfsSource::Bind { path: path.into() }
}

fn restore(closure: &str) -> CheckpointRestore {
    CheckpointRestore {
        closure: closure.into(),
        checkpoint_root: "blake3:pending".into(),
        checkpoint_id: "pending".into(),
    }
}

fn text<T>(r: MicrosandboxResult<T>) -> String {
    match r {
        Ok(_) => panic!("accepted"),
        Err(e) => e.message(),
    }
}

// ------------------------------------------------------------------------------------------------
// Staged storage
// ------------------------------------------------------------------------------------------------

#[test]
fn archive_child_stage_guard_removes_uncommitted_storage() {
    let guard = ChildStageGuard::new("/srv/sandboxes/child".into());
    assert_eq!(guard.into_removal().as_deref(), Some("/srv/sandboxes/child"));
}

#[test]
fn archive_child_stage_guard_preserves_committed_storage() {
    let mut guard = ChildStageGuard::new("/srv/sandboxes/child".into());
    guard.disarm();
    assert_eq!(guard.path, "/srv/sandboxes/child");
    assert!(guard.into_removal().is_none());
}

// ------------------------------------------------------------------------------------------------
// Waiting for the relay
// ------------------------------------------------------------------------------------------------

#[test]
fn readiness_deadline_reports_timeout_not_only_missing_socket() {
    let error = relay_readiness_timeout(
        "slow-restore",
        AGENT_RELAY_READY_TIMEOUT,
        &std::io::Error::from(std::io::ErrorKind::NotFound).to_string(),
    )
    .message();
    assert!(error.contains("startup timed out after 180 seconds"));
    assert!(error.contains("slow-restore"));
    assert!(error.contains("restore preparation"));
    assert!(error.contains("last connection error"));
}

#[test]
fn readiness_loop_reports_missing_socket_deadline() {
    // No socket, a process that lives, and 50 milliseconds.
    let mut step = RelayStep::start();
    let mut waited = 0;
    while waited < 50 {
        step = step.advance(RelayEvent::NotConnected { time_left: true });
        step = step.advance(RelayEvent::Process { exited: false });
        match step {
            RelayStep::Sleep { backoff_ms } => waited += relay_sleep_ms(backoff_ms, 50 - waited),
            other => panic!("{other:?}"),
        }
        step = step.advance(RelayEvent::Done);
    }
    assert_eq!(waited, 50);
    step = step.advance(RelayEvent::NotConnected { time_left: false });
    assert_eq!(step, RelayStep::ReadRecord { exited: false });
    step = step.advance(RelayEvent::Record(false));
    assert_eq!(step, RelayStep::Failed(RelayFailure::TimedOut));
    let error =
        relay_readiness_timeout("slow-restore", 50_000_000, "No such file or directory").message();
    assert!(error.contains("startup timed out after 0.05 seconds"), "{error}");
    assert!(error.contains("slow-restore"), "{error}");
    assert!(error.contains("last connection error"), "{error}");
    assert!(error.contains("No such file"), "{error}");
}

#[test]
fn readiness_loop_reports_stalled_handshake_deadline() {
    let step = RelayStep::start()
        .advance(RelayEvent::NotConnected { time_left: false })
        .advance(RelayEvent::Record(false));
    assert_eq!(step, RelayStep::Failed(RelayFailure::TimedOut));
    let error =
        relay_readiness_timeout("slow-restore", 50_000_000, "deadline has elapsed").message();
    assert!(error.contains("startup timed out after 0.05 seconds"), "{error}");
    assert!(error.contains("deadline has elapsed"), "{error}");
}

#[test]
fn readiness_timeouts_quote_the_name() {
    assert_eq!(
        readiness_timeout_error("a\"b", "1.5", "refused").message(),
        "sandbox \"a\\\"b\" startup timed out after 1.5 seconds before agent readiness; \
         restore preparation may still be pending; last connection error: refused"
    );
    assert_eq!(
        relay_readiness_timeout("n", 1_500_000_000, "e").message(),
        "sandbox \"n\" startup timed out after 1.5 seconds before agent readiness; \
         restore preparation may still be pending; last connection error: e"
    );
}

#[test]
fn backoff_doubles_up_to_ten_milliseconds() {
    let mut step = RelayStep::start();
    let mut seen = Vec::new();
    for _ in 0..6 {
        step = step
            .advance(RelayEvent::NotConnected { time_left: true })
            .advance(RelayEvent::Process { exited: false });
        if let RelayStep::Sleep { backoff_ms } = step {
            seen.push(backoff_ms);
        }
        step = step.advance(RelayEvent::Done);
    }
    assert_eq!(seen, vec![1, 2, 4, 8, 10, 10]);
    assert_eq!(relay_sleep_ms(10, 3), 3);
    assert_eq!(relay_sleep_ms(2, 3), 2);
}

#[test]
fn an_exited_process_is_reported_with_its_record_if_there_is_one() {
    let exited = RelayStep::start()
        .advance(RelayEvent::NotConnected { time_left: true })
        .advance(RelayEvent::Process { exited: true });
    assert_eq!(
        exited.advance(RelayEvent::Record(true)),
        RelayStep::Failed(RelayFailure::Recorded)
    );
    assert_eq!(
        exited.advance(RelayEvent::Record(false)),
        RelayStep::Failed(RelayFailure::Exited)
    );
    let synthetic = synthetic_boot_error("2026-01-01T00:00:00.000Z", "exit status: 101");
    assert!(matches!(synthetic.stage, BootErrorStage::Other));
    assert_eq!(synthetic.errno, None);
    assert_eq!(
        synthetic.message,
        "sandbox process exited (exit status: 101) before agent relay became available"
    );
    let error = LocalBackend::read_boot_start_error(Some(synthetic), "worker").unwrap();
    assert!(matches!(error, MicrosandboxError::BootStart { ref name, .. } if name == "worker"));
    assert!(LocalBackend::read_boot_start_error(None, "worker").is_none());
}

#[test]
fn a_connection_clears_stale_records() {
    let step = RelayStep::start().advance(RelayEvent::Connected);
    assert_eq!(step, RelayStep::ClearRecord);
    assert_eq!(step.advance(RelayEvent::Failed), RelayStep::Ready);
    assert_eq!(step.advance(RelayEvent::Done), RelayStep::Ready);
}

#[test]
fn a_host_that_cannot_see_the_process_ends_the_wait() {
    let step = RelayStep::start()
        .advance(RelayEvent::NotConnected { time_left: true })
        .advance(RelayEvent::Failed);
    assert_eq!(step, RelayStep::Failed(RelayFailure::Host));
}

// ------------------------------------------------------------------------------------------------
// Booting
// ------------------------------------------------------------------------------------------------

fn record(message: &str) -> BootError {
    BootError {
        t: "t".into(),
        stage: BootErrorStage::Recorded("init".into()),
        errno: Some(2),
        message: message.into(),
    }
}

#[test]
fn failed_preparations_take_the_process_down() {
    let plan = BootPlan { restoring: true, publishes_owner: false };
    let mut step = BootStep::Spawn.advance(BootEvent::Done, plan);
    assert_eq!(step, BootStep::AwaitPreparation);
    step = step.advance(BootEvent::Failed, plan);
    assert_eq!(step, BootStep::ReadRecord);
    step = step.advance(BootEvent::Done, plan);
    assert_eq!(step, BootStep::TerminateUnprepared);
    assert_eq!(step.advance(BootEvent::Failed, plan), BootStep::FailedUnclean);
    step = step.advance(BootEvent::Done, plan);
    assert_eq!(step, BootStep::ReadRecordAgain);
    assert_eq!(step.advance(BootEvent::Done, plan), BootStep::Failed);
}

#[test]
fn boots_read_restored_resources_and_publish_owners() {
    let done = BootEvent::Done;
    let plain = BootPlan { restoring: false, publishes_owner: false };
    let relay = BootStep::Spawn.advance(done, plain).advance(done, plain);
    assert_eq!(relay, BootStep::AwaitRelay);
    assert_eq!(relay.advance(done, plain), BootStep::Ready);

    let full = BootPlan { restoring: true, publishes_owner: true };
    let resources = relay.advance(done, full);
    assert_eq!(resources, BootStep::ReadResources);
    let publish = resources.advance(done, full);
    assert_eq!(publish, BootStep::PublishOwner);
    assert_eq!(publish.advance(done, full), BootStep::Ready);
    assert_eq!(publish.advance(BootEvent::Failed, full), BootStep::Abandon);
    assert_eq!(resources.advance(BootEvent::Failed, full), BootStep::Terminate);
    assert_eq!(relay.advance(BootEvent::Failed, full), BootStep::Terminate);
    assert_eq!(
        restore_deadline_error().message(),
        "startup deadline expired while reading restored resource targets"
    );
    assert_eq!(unrecorded_run_error().message(), "ready runtime has no run record");
}

#[test]
fn the_last_record_explains_a_failed_preparation() {
    let closed = || MicrosandboxError::Runtime("closed".into());
    let explain = |first, last| preparation_error(closed(), first, last, "worker").message();
    assert_eq!(explain(None, None), "closed");
    assert_eq!(explain(Some(record("early")), None), "early");
    assert_eq!(explain(Some(record("early")), Some(record("late"))), "late");
    assert_eq!(explain(None, Some(record("late"))), "late");
    assert_eq!(unclean_error("first", "second").message(), "first; second");
}

// ------------------------------------------------------------------------------------------------
// What is refused
// ------------------------------------------------------------------------------------------------

#[test]
fn test_runtime_name_validation_uses_explicit_backend_paths() {
    let backend = LocalBackend {
        run_dir: "/tmp/msb/msb-home/run".into(),
        sandboxes_dir: "/tmp/msb/msb-home/sandboxes".into(),
        volumes_dir: "/tmp/msb/msb-home/volumes".into(),
        socket_path_capacity: 108,
        stop_timeout_ms: 10_000,
    };
    assert!(backend.validate_sandbox_name_for_runtime("sdk-socket-test", Ok(())).is_ok());
    let refused = backend.validate_sandbox_name_for_runtime(
        "bad name",
        Err(MicrosandboxError::InvalidConfig("bad".into())),
    );
    assert_eq!(text(refused), "invalid config: bad");
    let cramped = LocalBackend { socket_path_capacity: 10, ..backend };
    assert!(cramped.validate_sandbox_name_for_runtime("sdk-socket-test", Ok(())).is_err());
}

fn checks() -> ConfigChecks {
    ConfigChecks {
        hostname: Ok(()),
        name: Ok(()),
        env: Ok(()),
        labels: Ok(()),
        mounts: Ok(()),
        init: Ok(()),
    }
}

fn refused(why: &str) -> MicrosandboxResult<()> {
    Err(MicrosandboxError::InvalidConfig(why.into()))
}

fn short_paths() -> LocalBackend {
    LocalBackend {
        run_dir: "/run/msb".into(),
        sandboxes_dir: "/s".into(),
        volumes_dir: "/v".into(),
        socket_path_capacity: 108,
        stop_timeout_ms: 10_000,
    }
}

#[test]
fn test_create_local_rejects_invalid_hostname_before_rootfs_validation() {
    let config = config_with("test", bind("/tmp/microsandbox-rootfs-missing-2"));
    let hostname = refused("hostname is too long: 65 bytes (max 64)");
    let checked = short_paths().validate_final_config(
        &config,
        PathFact::Missing,
        ConfigChecks { hostname, ..checks() },
    );
    assert_eq!(text(checked), "invalid config: hostname is too long: 65 bytes (max 64)");
}

#[test]
fn the_first_refusal_is_given() {
    let backend = short_paths();
    let mut config = config_with("test", bind("/missing"));
    config.spec.init = Some(HandoffInit { cmd: "/sbin/init".into(), args: vec![], env: vec![] });
    let all = |passed: usize| {
        let at = |place: usize, why: &str| if place < passed { Ok(()) } else { refused(why) };
        ConfigChecks {
            hostname: at(0, "hostname"),
            name: at(1, "name"),
            env: at(2, "env"),
            labels: at(3, "labels"),
            mounts: at(4, "mounts"),
            init: at(5, "init"),
        }
    };
    let create = |passed: usize, fact: PathFact| {
        text(backend.validate_final_config(&config, fact, all(passed)))
    };
    assert_eq!(create(0, PathFact::Missing), "invalid config: hostname");
    assert_eq!(create(1, PathFact::Missing), "invalid config: name");
    assert_eq!(
        create(2, PathFact::Missing),
        "invalid config: rootfs bind path does not exist: /missing"
    );
    assert_eq!(create(2, PathFact::Directory), "invalid config: env");
    assert_eq!(create(3, PathFact::Directory), "invalid config: labels");
    assert_eq!(create(4, PathFact::Directory), "invalid config: mounts");
    assert_eq!(create(5, PathFact::Directory), "invalid config: init");
    assert!(backend.validate_final_config(&config, PathFact::Directory, all(6)).is_ok());
    assert!(backend.validate_start_config(&config, PathFact::Directory, all(5)).is_ok());
    assert_eq!(
        text(backend.validate_start_config(&config, PathFact::Directory, all(3))),
        create(3, PathFact::Directory)
    );
    let plain = config_with("test", bind("/root"));
    assert!(backend.validate_final_config(&plain, PathFact::Directory, all(5)).is_ok());
    let cramped = LocalBackend { socket_path_capacity: 10, ..short_paths() };
    let late = cramped.validate_final_config(&plain, PathFact::Missing, all(2));
    assert!(!text(late).contains("rootfs"));
}

#[test]
fn resolved_deployment_profiles_are_kept() {
    let requested = DeploymentProfile::MultiTenant;
    let mut created = config_with("policy-clear", oci(None));
    assert_eq!(created.spec.deployment_profile, None);
    record_deployment_profile(&mut created, requested);
    assert_eq!(created.spec.deployment_profile, Some(requested));
    let stored = created.spec.deployment_profile;
    record_deployment_profile(&mut created, stored.unwrap());
    assert_eq!(created.spec.deployment_profile, Some(requested));
}

#[test]
fn test_validate_rootfs_source_missing_bind_path() {
    let path = "/tmp/microsandbox-rootfs-missing-1";
    let r = LocalBackend::validate_rootfs_source(&bind(path), PathFact::Missing);
    assert_eq!(text(r), format!("invalid config: rootfs bind path does not exist: {path}"));
}

#[test]
fn test_validate_rootfs_source_bind_path_must_be_directory() {
    let path = "/tmp/microsandbox-rootfs-file-1";
    let r = LocalBackend::validate_rootfs_source(&bind(path), PathFact::File);
    assert_eq!(text(r), format!("invalid config: rootfs bind path is not a directory: {path}"));
}

#[test]
fn test_validate_rootfs_source_existing_bind_directory() {
    let path = "/tmp/microsandbox-rootfs-dir-1";
    assert!(LocalBackend::validate_rootfs_source(&bind(path), PathFact::Directory).is_ok());
}

#[test]
fn disk_image_roots_are_regular_files() {
    let disk = RootfsSource::DiskImage {
        path: "/d.raw".into(),
        format: DiskImageFormat::Raw,
        fstype: None,
    };
    assert_eq!(
        text(LocalBackend::validate_rootfs_source(&disk, PathFact::Missing)),
        "invalid config: disk image does not exist: /d.raw"
    );
    assert_eq!(
        text(LocalBackend::validate_rootfs_source(&disk, PathFact::Directory)),
        "invalid config: disk image is not a regular file: /d.raw"
    );
    assert!(LocalBackend::validate_rootfs_source(&disk, PathFact::File).is_ok());
    assert!(LocalBackend::validate_rootfs_source(&oci(None), PathFact::Missing).is_ok());
}

#[test]
fn forks_need_a_whole_machine() {
    let mut config = config_with("fork", oci(None));
    assert!(check_fork(&config).is_ok());
    config.forked = true;
    assert_eq!(text(check_fork(&config)), "invalid config: forked requires a full snapshot restore");
    config.checkpoint_restore = Some(restore("/c"));
    assert!(check_fork(&config).is_ok());
}

#[test]
fn full_restores_are_detached() {
    let mut config = config_with("mode", oci(None));
    assert_eq!(create_spawn_mode(&config, SpawnMode::Attached), SpawnMode::Attached);
    assert_eq!(create_spawn_mode(&config, SpawnMode::Detached), SpawnMode::Detached);
    config.checkpoint_restore = Some(restore("/c"));
    assert_eq!(create_spawn_mode(&config, SpawnMode::Attached), SpawnMode::Detached);
}

#[test]
fn workdirs_are_directories_in_the_guest() {
    assert!(check_workdir("/app", &WorkdirFact::Directory).is_ok());
    assert_eq!(
        text(check_workdir("/app", &WorkdirFact::Other)),
        "invalid config: workdir is not a directory in guest: /app"
    );
    assert_eq!(
        text(check_workdir("/app", &WorkdirFact::Unknown("closed".into()))),
        "invalid config: could not validate workdir in guest \"/app\": closed"
    );
}

#[test]
fn disk_snapshots_state_their_capacity() {
    assert_eq!(file_snapshot_capacity(Some(7)).ok(), Some(7));
    assert_eq!(
        text(file_snapshot_capacity(None)),
        "file snapshot is missing its root-disk capacity"
    );
}

#[test]
fn layered_roots_need_their_stitched_disk() {
    assert!(check_vmdk(true, "/v", true).is_ok());
    assert!(check_vmdk(false, "/v", false).is_ok());
    assert_eq!(text(check_vmdk(true, "/v", false)), "VMDK not materialized: /v");
}

// ------------------------------------------------------------------------------------------------
// Restores
// ------------------------------------------------------------------------------------------------

#[test]
fn incomplete_restore_survives_failure_until_explicit_completion() {
    let mut config = config_with("pending", bind("/srv/root"));
    config.checkpoint_restore = Some(restore("/srv/checkpoint"));
    assert!(text(LocalBackend::validate_completed_restore(&config))
        .contains("refusing a cold boot"));

    let construction = config.spec.resources;
    let restored = resources(2, 768, 1, 512);
    let current = DesiredState {
        cpus: construction.cpus,
        memory_mib: construction.memory_mib,
        restoring: true,
    };
    let completed = complete_sandbox_restore(current, construction, restored);
    assert_eq!(completed, DesiredState { cpus: 2, memory_mib: 768, restoring: false });
    config.checkpoint_restore = None;
    assert!(LocalBackend::validate_completed_restore(&config).is_ok());
}

#[test]
fn restore_completion_preserves_concurrent_desired_resource_edits() {
    let construction = resources(1, 256, 4, 1024);
    let edited = DesiredState { cpus: 3, memory_mib: 256, restoring: true };
    let restored = resources(2, 768, 4, 1024);
    let completed = complete_sandbox_restore(edited, construction, restored);
    assert_eq!(completed.cpus, 3);
    assert_eq!(completed.memory_mib, 768);
    assert!(!completed.restoring);
}

#[test]
fn used_up_restores_are_forgotten() {
    let mut config = config_with("restored", oci(None));
    assert!(!owned_volumes_are_restored(&config));
    config.checkpoint_restore = Some(restore("/c"));
    assert!(owned_volumes_are_restored(&config));
    config.snapshot_upper_layers.push("/l".into());
    config.snapshot_parent = Some("snap-1".into());
    forget_restore(&mut config);
    assert!(config.checkpoint_restore.is_none());
    assert!(config.snapshot_upper_layers.is_empty());
    assert_eq!(config.snapshot_parent.as_deref(), Some("snap-1"));
    assert!(owned_volumes_are_restored(&config));
    assert!(LocalBackend::validate_completed_restore(&config).is_ok());
}

#[test]
fn archives_move_with_their_stage() {
    let mut config = config_with("moved", oci(None));
    config.checkpoint_restore = Some(restore("/s/.archive-restore-1/closure"));
    config.snapshot_upper_source = Some("/s/.archive-restore-1/upper.ext4".into());
    config.snapshot_upper_layers =
        vec!["/s/.archive-restore-1/l/0.raw".into(), "/cache/base.raw".into()];
    config.spec.mounts.push(disk("/s/.archive-restore-1/volumes/data.qcow2", "/data"));
    config.spec.mounts.push(disk("/s/.archive-restore-10/data.qcow2", "/data"));
    config.spec.mounts.push(VolumeMount::Tmpfs {
        guest: "/s/.archive-restore-1".into(),
        size_mib: None,
        options: MountOptions::default(),
    });

    relocate_archive_config(&mut config, "/s/.archive-restore-1", "/s/moved", false);

    assert_eq!(config.checkpoint_restore.as_ref().unwrap().closure, "/s/moved/closure");
    assert_eq!(config.checkpoint_restore.as_ref().unwrap().checkpoint_id, "pending");
    assert_eq!(config.snapshot_upper_source.as_deref(), Some("/s/moved/upper.ext4"));
    assert_eq!(config.snapshot_upper_layers, vec!["/s/moved/l/0.raw", "/cache/base.raw"]);
    let hosts: Vec<&str> = config
        .spec
        .mounts
        .iter()
        .map(|mount| match mount {
            VolumeMount::DiskImage { host, .. } => host.as_str(),
            VolumeMount::Tmpfs { guest, .. } => guest.as_str(),
            _ => panic!("another mount"),
        })
        .collect();
    assert_eq!(
        hosts,
        vec![
            "/s/moved/volumes/data.qcow2",
            "/s/.archive-restore-10/data.qcow2",
            "/s/.archive-restore-1"
        ]
    );
    assert_eq!(config.spec.name, "moved");
}

fn disk(host: &str, guest: &str) -> VolumeMount {
    VolumeMount::DiskImage {
        host: host.into(),
        guest: guest.into(),
        format: DiskImageFormat::Qcow2,
        fstype: None,
        options: MountOptions::default(),
    }
}

fn archive(state: SnapshotState, layout: SnapshotRootDisk) -> ArchiveContents {
    ArchiveContents {
        reference: "alpine@sha256:1".into(),
        manifest_digest: "sha256:1".into(),
        root_disk: Ok(None),
        layout,
        user: Ok(Some("app".into())),
        disks: AdditionalDisks {
            mounts: vec![disk("/stage/data.qcow2", "/data")],
            owned_volumes: vec!["/data".into()],
        },
        snapshot_id: "snap-1".into(),
        state,
        checkpoint_restore: None,
        upper_layers: Vec::new(),
    }
}

#[test]
fn archives_of_disks_boot_their_staged_disk() {
    for (layout, disk) in [
        (SnapshotRootDisk::Managed, "/stage/upper.ext4"),
        (SnapshotRootDisk::Flat, "/stage/rootfs.raw"),
    ] {
        let mut config = config_with("child", bind("/"));
        config.startup_command_requested = true;
        let adopted =
            adopt_archive(&mut config, archive(SnapshotState::File, layout), "/stage", "rootfs.raw", false);
        assert!(matches!(adopted, Ok(None)));
        assert_eq!(config.spec.mounts.len(), 1);
        assert_eq!(config.owned_volumes, vec!["/data"]);
        assert_eq!(config.snapshot_upper_source.as_deref(), Some(disk));
        assert_eq!(config.snapshot_parent.as_deref(), Some("snap-1"));
        assert_eq!(config.manifest_digest.as_deref(), Some("sha256:1"));
        assert_eq!(config.spec.runtime.user.as_deref(), Some("app"));
        assert!(config.startup_command_requested);
        assert!(
            matches!(&config.spec.image, RootfsSource::Oci(o) if o.reference == "alpine@sha256:1")
        );
    }
}

#[test]
fn archives_of_machines_continue_them() {
    let mut config = config_with("child", bind("/"));
    config.startup_command_requested = true;
    config.spec.runtime.user = Some("root".into());
    let mut contents = archive(SnapshotState::Checkpoint, SnapshotRootDisk::Managed);
    contents.checkpoint_restore = Some(restore("/stage/closure"));
    contents.upper_layers = vec!["/stage/0.raw".into()];
    let machine = adopt_archive(&mut config, contents, "/stage", "rootfs.raw", false).ok().unwrap();
    let machine = machine.expect("a captured machine");
    // Nothing continues before the captured machine has had its say.
    assert!(config.checkpoint_restore.is_none());
    assert!(config.startup_command_requested);
    assert_eq!(config.spec.mounts.len(), 1);
    let mut constrained = config;
    constrained.spec.resources = resources(3, 512, 4, 1024);
    let config = adopt_machine(Ok(constrained), machine).ok().unwrap();
    assert_eq!(config.spec.resources, resources(3, 512, 4, 1024));
    assert_eq!(config.checkpoint_restore.as_ref().unwrap().closure, "/stage/closure");
    assert_eq!(config.snapshot_upper_layers, vec!["/stage/0.raw"]);
    assert!(config.snapshot_upper_source.is_none());
    assert!(!config.startup_command_requested);
    // The user that was asked for counts before the captured one.
    assert_eq!(config.spec.runtime.user.as_deref(), Some("root"));

    let mut config = config_with("child", bind("/"));
    let mut contents = archive(SnapshotState::File, SnapshotRootDisk::Managed);
    contents.checkpoint_restore = Some(restore("/stage/closure"));
    assert_eq!(
        text(adopt_archive(&mut config, contents, "/stage", "rootfs.raw", false)),
        "archive produced checkpoint construction state for file snapshot"
    );
    assert!(config.snapshot_parent.is_none());
}

#[test]
fn archives_are_refused_for_the_first_reason() {
    let refuse = |why: &str| MicrosandboxError::SnapshotIntegrity(why.into());
    let broken = || {
        let mut contents = archive(SnapshotState::File, SnapshotRootDisk::Managed);
        contents.user = Err(refuse("user"));
        contents.root_disk = Err(refuse("layout"));
        contents.checkpoint_restore = Some(restore("/stage/closure"));
        contents
    };
    let mut config = config_with("child", bind("/"));
    assert_eq!(text(adopt_archive(&mut config, broken(), "/stage", "r", false)), "user");
    // A user that was asked for makes the captured one irrelevant.
    config.spec.runtime.user = Some("root".into());
    assert_eq!(text(adopt_archive(&mut config, broken(), "/stage", "r", false)), "layout");
    let machine =
        CapturedMachine { restore: restore("/stage/closure"), upper_layers: Vec::new() };
    assert_eq!(text(adopt_machine(Err(refuse("cpus")), machine)), "cpus");
}

#[test]
fn checkpoints_are_continued_or_booted_from() {
    let parts = |full: bool| CheckpointParts {
        restore: if full { Some(restore("/s/closure")) } else { None },
        disks: AdditionalDisks {
            mounts: vec![disk("/s/data.raw", "/data")],
            owned_volumes: vec!["/data".into()],
        },
        upper_layers: vec!["/s/0.raw".into()],
    };
    for full in [true, false] {
        let mut config = config_with("child", oci(None));
        config.startup_command_requested = true;
        adopt_checkpoint(&mut config, parts(full));
        assert_eq!(config.checkpoint_restore.is_some(), full);
        assert_eq!(config.startup_command_requested, !full);
        assert_eq!(config.snapshot_upper_layers, vec!["/s/0.raw"]);
        assert_eq!(config.spec.mounts.len(), 1);
        assert_eq!(config.owned_volumes, vec!["/data"]);
    }
    let mut config = config_with("child", oci(None));
    adopt_disks(&mut config, parts(false).disks);
    assert_eq!(config.spec.mounts.len(), 1);
    assert!(config.snapshot_upper_layers.is_empty());
}

fn image_facts(digest: &str) -> ImageFacts {
    ImageFacts {
        manifest_digest: digest.into(),
        init: Ok(()),
        vmdk_path: "/cache/1.vmdk".into(),
        vmdk_present: true,
    }
}

#[test]
fn roots_are_planned_on_the_image_they_depend_on() {
    let plan = |config: &SandboxConfig, image: ImageFacts| {
        plan_root(config, image, "/s/worker", &facts())
    };
    let mut config = config_with("worker", oci(None));
    config.spec.init = Some(HandoffInit { cmd: "/sbin/init".into(), args: vec![], env: vec![] });
    config.snapshot_upper_source = Some("/snap/upper.ext4".into());
    config.manifest_digest = Some("sha256:1".into());
    config.spec.patches.push("p".into());
    let wrong = |digest: &str, init: bool, vmdk_present: bool| ImageFacts {
        init: if init { Ok(()) } else { refused("init") },
        vmdk_present,
        ..image_facts(digest)
    };
    assert_eq!(
        text(plan(&config, wrong("sha256:2", false, false))),
        "snapshot image digest mismatch: manifest pinned sha256:1, resolved sha256:2"
    );
    assert_eq!(text(plan(&config, wrong("sha256:1", false, false))), "invalid config: init");
    assert_eq!(
        text(plan(&config, wrong("sha256:1", true, false))),
        "VMDK not materialized: /cache/1.vmdk"
    );
    assert_eq!(
        text(plan(&config, wrong("sha256:1", true, true))),
        "invalid config: patches cannot be combined with from_snapshot"
    );
    config.spec.patches.clear();
    assert!(matches!(
        plan(&config, image_facts("sha256:1")),
        Ok(Some(RootProvision::Copy { .. }))
    ));
    // A fresh sandbox depends on no image, and a bind root boots none.
    config.snapshot_upper_source = None;
    assert!(plan(&config, image_facts("sha256:2")).is_ok());
    let bound = config_with("worker", bind("/"));
    assert!(matches!(plan(&bound, wrong("x", false, false)), Ok(None)));
}

#[test]
fn roots_are_recorded() {
    let used = |how: RootProvision| {
        let mut config = config_with("worker", oci(None));
        config.snapshot_upper_source = Some("/snap/upper.ext4".into());
        record_root(&mut config, &how, 7, "sha256:1".into());
        assert_eq!(config.manifest_digest.as_deref(), Some("sha256:1"));
        config.snapshot_upper_source.is_none()
    };
    assert!(used(RootProvision::InPlace));
    assert!(used(RootProvision::Copy { from: "/a".into(), to: "/b".into() }));
    assert!(!used(RootProvision::Layers));
    assert!(!used(RootProvision::PatchFlat { path: "/a".into(), requested_mib: None }));
}

#[test]
fn snapshot_layouts_follow_the_root_disk() {
    let layout = |image| snapshot_root_layout_from_config(&config_with("layout", image));
    assert_eq!(layout(oci(None)).ok(), Some(SnapshotRootDisk::Managed));
    assert_eq!(
        layout(oci(Some(RootDisk::Managed { size_mib: Some(3) }))).ok(),
        Some(SnapshotRootDisk::Managed)
    );
    assert_eq!(
        layout(oci(Some(RootDisk::Flat { size_mib: None, clone: FlatClone::Auto, fstype: None }))).ok(),
        Some(SnapshotRootDisk::Flat)
    );
    assert_eq!(
        layout(oci(Some(RootDisk::Tmpfs { size_mib: Some(64) }))).ok(),
        Some(SnapshotRootDisk::Tmpfs { size_mib: Some(64) })
    );
    assert_eq!(
        text(layout(oci(Some(RootDisk::DiskImage { path: "/d".into() })))),
        "snapshot descriptor cannot select a user-owned disk-image root"
    );
    assert_eq!(text(layout(bind("/"))), "snapshot restore did not resolve to an OCI rootfs");
}

// ------------------------------------------------------------------------------------------------
// The root disk
// ------------------------------------------------------------------------------------------------

fn facts() -> DiskFacts {
    DiskFacts {
        flat_filename: "rootfs.raw".into(),
        default_size_mib: 4096,
        flat: FlatFact::Published { virtual_size_bytes: 1 },
        upper_exists: false,
        image_exists: false,
        windows: false,
    }
}

fn provision(config: &SandboxConfig, disk: Option<RootDisk>, facts: &DiskFacts) -> MicrosandboxResult<RootProvision> {
    provision_root(config, &disk, "/s/worker", facts)
}

#[test]
fn managed_disks_are_formatted_once() {
    let config = config_with("worker", oci(None));
    assert!(matches!(
        provision(&config, None, &facts()),
        Ok(RootProvision::Format { path, size_mib: 4096 }) if path == "/s/worker/upper.ext4"
    ));
    assert!(matches!(
        provision(&config, Some(RootDisk::Managed { size_mib: Some(8) }), &facts()),
        Ok(RootProvision::Format { size_mib: 8, .. })
    ));
    let kept = DiskFacts { upper_exists: true, ..facts() };
    assert!(matches!(provision(&config, None, &kept), Ok(RootProvision::Keep)));
    // Patches are written into a new disk even where there is one.
    let mut patched = config_with("worker", oci(None));
    patched.spec.patches.push("p".into());
    assert!(matches!(provision(&patched, None, &kept), Ok(RootProvision::Format { .. })));
}

#[test]
fn memory_and_user_disks_are_not_made() {
    let config = config_with("worker", oci(None));
    assert!(matches!(
        provision(&config, Some(RootDisk::Tmpfs { size_mib: None }), &facts()),
        Ok(RootProvision::Memory)
    ));
    let own = || Some(RootDisk::DiskImage { path: "/own.raw".into() });
    assert_eq!(
        text(provision(&config, own(), &facts())),
        "invalid config: root disk image not found: /own.raw"
    );
    let there = DiskFacts { image_exists: true, ..facts() };
    assert!(matches!(provision(&config, own(), &there), Ok(RootProvision::UserDisk)));
}

#[test]
fn flat_disks_are_cloned_or_patched() {
    let flat = |size_mib| Some(RootDisk::Flat { size_mib, clone: FlatClone::Auto, fstype: None });
    let config = config_with("worker", oci(None));
    assert!(matches!(
        provision(&config, flat(None), &facts()),
        Ok(RootProvision::CloneFlat { path, target_mib: 4096, clone: FlatClone::Auto })
            if path == "/s/worker/rootfs.raw"
    ));
    assert!(matches!(
        provision(&config, flat(Some(16)), &facts()),
        Ok(RootProvision::CloneFlat { target_mib: 16, .. })
    ));
    assert_eq!(
        text(provision(&config, flat(None), &DiskFacts { flat: FlatFact::Missing, ..facts() })),
        "flat rootfs was not published by the image pull"
    );
    let bad = DiskFacts { flat: FlatFact::BadDigest("no colon".into()), ..facts() };
    assert_eq!(
        text(provision(&config, flat(None), &bad)),
        "invalid flat rootfs artifact digest in cache: no colon"
    );
    let chosen = Some(RootDisk::Flat {
        size_mib: None,
        clone: FlatClone::Named("reflink".into()),
        fstype: None,
    });
    assert!(matches!(
        provision(&config, chosen, &facts()),
        Ok(RootProvision::CloneFlat { clone: FlatClone::Named(name), .. }) if name == "reflink"
    ));
    let typed = |fstype: &str| {
        Some(RootDisk::Flat {
            size_mib: None,
            clone: FlatClone::Auto,
            fstype: Some(fstype.into()),
        })
    };
    let odd = typed("xfs");
    assert_eq!(
        text(provision(&config, odd, &facts())),
        "invalid config: flat root disks currently require fstype=ext4, got xfs"
    );
    assert!(provision(&config, typed("ext4"), &facts()).is_ok());
    let mut patched = config_with("worker", oci(None));
    patched.spec.patches.push("p".into());
    assert!(matches!(
        provision(&patched, flat(Some(9)), &facts()),
        Ok(RootProvision::PatchFlat { requested_mib: Some(9), .. })
    ));
}

#[test]
fn snapshot_disks_are_used_as_they_are() {
    let mut layered = config_with("worker", oci(None));
    layered.snapshot_upper_layers.push("/l".into());
    assert!(matches!(provision(&layered, None, &facts()), Ok(RootProvision::Layers)));
    layered.spec.patches.push("p".into());
    assert_eq!(
        text(provision(&layered, None, &facts())),
        "invalid config: patches cannot be combined with full snapshot restore"
    );

    let mut copied = config_with("worker", oci(None));
    copied.snapshot_upper_source = Some("/snap/upper.ext4".into());
    assert!(matches!(
        provision(&copied, None, &facts()),
        Ok(RootProvision::Copy { from, to })
            if from == "/snap/upper.ext4" && to == "/s/worker/upper.ext4"
    ));
    let windows = DiskFacts { windows: true, ..facts() };
    assert!(matches!(
        provision(&copied, None, &windows),
        Ok(RootProvision::Copy { to, .. }) if to == "/s/worker\\upper.ext4"
    ));
    copied.snapshot_upper_source = Some("\\s/worker/upper.ext4".into());
    assert!(matches!(provision(&copied, None, &windows), Ok(RootProvision::InPlace)));
    copied.snapshot_upper_source = Some("/s//worker/./upper.ext4".into());
    assert!(matches!(provision(&copied, None, &facts()), Ok(RootProvision::InPlace)));
    copied.spec.patches.push("p".into());
    assert_eq!(
        text(provision(&copied, None, &facts())),
        "invalid config: patches cannot be combined with from_snapshot"
    );
}

#[test]
fn flat_sizes_cover_the_image() {
    assert_eq!(flat_root_size(0, None, 4).ok(), Some(4));
    assert_eq!(flat_root_size(5 * 1024 * 1024, None, 4).ok(), Some(5));
    assert_eq!(flat_root_size(5 * 1024 * 1024 + 1, None, 4).ok(), Some(6));
    assert_eq!(flat_root_size(u64::MAX, Some(7), 4).ok(), Some(7));
    assert_eq!(
        text(flat_root_size(u64::MAX, None, 4)),
        "invalid config: flat root disk size exceeds supported MiB range"
    );
}

#[test]
fn flat_sizes_are_recorded() {
    let disk =
        RootDisk::Flat { size_mib: None, clone: FlatClone::Named("copy".into()), fstype: None };
    let mut config = config_with("flat", oci(Some(disk)));
    let patched = RootProvision::PatchFlat { path: "/f".into(), requested_mib: None };
    record_root(&mut config, &patched, 12, "sha256:1".into());
    assert!(matches!(
        &config.spec.image,
        RootfsSource::Oci(OciRootfsSource {
            root_disk: Some(RootDisk::Flat {
                size_mib: Some(12),
                clone: FlatClone::Named(name),
                fstype: None,
            }),
            ..
        }) if name == "copy"
    ));
    let mut other = config_with("managed", oci(Some(RootDisk::Managed { size_mib: None })));
    record_root(&mut other, &patched, 12, "sha256:1".into());
    assert!(matches!(
        &other.spec.image,
        RootfsSource::Oci(o) if matches!(o.root_disk, Some(RootDisk::Managed { size_mib: None }))
    ));
}

#[test]
fn overlay_disks_have_two_directories() {
    let tree = build_overlay_upper_tree(Some(vec!["etc", "usr"]));
    assert_eq!(tree.len(), 2);
    assert_eq!(tree[0].name, "upper");
    assert_eq!(tree[0].entries, vec!["etc", "usr"]);
    assert_eq!(tree[1].name, "work");
    assert!(tree[1].entries.is_empty());
    let empty = build_overlay_upper_tree::<u8>(None);
    assert!(empty[0].entries.is_empty());
    assert_eq!(upper_size_bytes(3), 3 * 1024 * 1024);
    assert_eq!(upper_size_bytes(u32::MAX), u32::MAX as u64 * 1024 * 1024);
}

// ------------------------------------------------------------------------------------------------
// Records
// ------------------------------------------------------------------------------------------------

#[test]
fn test_persist_oci_manifest_pin_upserts_rootfs_record() {
    let one = "sha256:1111111111111111111111111111111111111111111111111111111111111111";
    let two = "sha256:2222222222222222222222222222222222222222222222222222222222222222";
    // No manifest is known, so the pin names none.
    let first = replace_oci_manifest_pin(&Vec::new(), &Vec::new(), 1, one);
    let pins = replace_oci_manifest_pin(&first, &Vec::new(), 1, two);
    assert_eq!(pins.len(), 1);
    assert_eq!(pins[0].sandbox_id, 1);
    assert_eq!(PIN_MODE, "erofs");
    assert_eq!(PIN_UPPER_FSTYPE, "ext4");
    assert_eq!(pins[0].manifest_id, None);
}

#[test]
fn test_persist_oci_manifest_pin_replaces_stale_pin_for_different_digest() {
    let manifests = vec![
        ManifestRow { id: 10, digest: "sha256:a".into() },
        ManifestRow { id: 11, digest: "sha256:b".into() },
    ];
    let others = vec![
        ManifestPin { sandbox_id: 2, manifest_id: Some(10) },
        ManifestPin { sandbox_id: 1, manifest_id: Some(10) },
        ManifestPin { sandbox_id: 3, manifest_id: None },
    ];
    let pins = replace_oci_manifest_pin(&others, &manifests, 1, "sha256:b");
    assert_eq!(
        pins,
        vec![
            ManifestPin { sandbox_id: 2, manifest_id: Some(10) },
            ManifestPin { sandbox_id: 3, manifest_id: None },
            ManifestPin { sandbox_id: 1, manifest_id: Some(11) },
        ]
    );
}

#[test]
fn test_local_create_record_stays_starting_until_readiness_publication() {
    let config = config_with("booting", oci(None));
    let record = insert_starting_sandbox_record(&config);
    assert_eq!(record.name, "booting");
    assert_eq!(record.status, SandboxStatus::Starting);
    assert_eq!(
        compare_and_set_sandbox_status(
            record.status,
            &[SandboxStatus::Starting],
            SandboxStatus::Running
        ),
        (SandboxStatus::Running, true)
    );
    assert_eq!(
        compare_and_set_sandbox_status(
            SandboxStatus::Stopped,
            &[SandboxStatus::Starting],
            SandboxStatus::Running
        ),
        (SandboxStatus::Stopped, false)
    );
}

#[test]
fn test_insert_sandbox_record_persists_label_projection() {
    let mut config = config_with("labelled", oci(None));
    config.spec.labels.push(("team".into(), "metrics".into()));
    config.spec.labels.push(("tier".into(), "gold".into()));
    config.spec.lifecycle.ephemeral = true;
    let record = insert_sandbox_record_with_status(&config, SandboxStatus::Running);
    assert_eq!(record.status, SandboxStatus::Running);
    assert!(record.ephemeral);
    assert_eq!(
        record.labels,
        vec![
            ("team".to_string(), "metrics".to_string()),
            ("tier".to_string(), "gold".to_string()),
        ]
    );
}

// ------------------------------------------------------------------------------------------------
// The course of a creation
// ------------------------------------------------------------------------------------------------

fn plan() -> CreatePlan {
    CreatePlan {
        restoring: false,
        oci_requested: false,
        replace: false,
        named_snapshot: false,
        archive: false,
        branch: false,
        checkpoint: false,
        files: false,
        owned_source: false,
        oci: false,
        patches: false,
        owned_volumes: false,
        workdir: false,
        restores: false,
        detached: false,
    }
}

#[test]
fn plans_follow_the_configuration() {
    let sources = RestoreSources {
        snapshot_reference: false,
        archive: true,
        upper_source: false,
        checkpoint: false,
        branch: false,
        snapshot_parent: false,
    };
    let parts = SnapshotParts { checkpoint: false, files: true, owned_volumes: false };
    let mut config = config_with("worker", bind("/"));
    let known = CreatePlan::of(&config, sources, parts, false, SpawnMode::Attached);
    assert!(known.restoring && known.archive && known.files);
    assert!(!known.oci && !known.workdir && !known.detached && !known.restores);
    config.spec.image = oci(None).clone();
    config.spec.runtime.workdir = Some("/app".into());
    config.spec.patches.push("p".into());
    config.owned_volumes.push("/data".into());
    config.checkpoint_restore = Some(restore("/c"));
    config.replace_existing = true;
    let known = CreatePlan::of(&config, sources, parts, true, SpawnMode::Detached);
    assert!(known.oci && known.workdir && known.patches && known.owned_volumes);
    assert!(known.restores && known.replace && known.detached && known.oci_requested);
    assert!(!known.named_snapshot && !known.branch && !known.checkpoint && !known.owned_source);
}

#[test]
fn fields_may_change_until_they_are_read() {
    // What the archive holds turns out while it is unpacked: an image, and a working directory.
    let before = CreatePlan { restoring: true, archive: true, ..plan() };
    let after = CreatePlan { oci: true, workdir: true, ..before };
    let mut creation = Creation::new();
    let mut seen = Vec::new();
    while creation.step != CreateStep::Created {
        seen.push(creation.step);
        let unpacked = seen.contains(&CreateStep::DecodeArchive);
        let known = if unpacked { after } else { before };
        creation = creation.advance(CreateEvent::Done, known);
    }
    for step in [
        CreateStep::DecodeArchive,
        CreateStep::ResolveImage,
        CreateStep::ProvisionRoot,
        CreateStep::PinManifest,
        CreateStep::CheckWorkdir,
    ] {
        assert!(seen.contains(&step), "{step:?}");
    }
}

fn until(plan: CreatePlan, step: CreateStep) -> Creation {
    let mut creation = Creation::new();
    while creation.step != step {
        assert_ne!(creation.step, CreateStep::Created, "{step:?} is not on the way");
        creation = creation.advance(CreateEvent::Done, plan);
    }
    creation
}

fn failing(plan: CreatePlan, step: CreateStep, event: CreateEvent) -> Vec<CreateStep> {
    let mut creation = until(plan, step).advance(event, plan);
    let mut seen = vec![creation.step];
    while creation.step != CreateStep::Failed && creation.step != CreateStep::FailedUnclean {
        creation = creation.advance(CreateEvent::Done, plan);
        seen.push(creation.step);
    }
    seen
}

#[test]
fn existing_name_fails_before_image_pull() {
    let fresh = CreatePlan { oci_requested: true, oci: true, ..plan() };
    let check = until(fresh, CreateStep::CheckTarget);
    assert_eq!(check.advance(CreateEvent::Failed, fresh).step, CreateStep::Failed);
    assert_eq!(check.advance(CreateEvent::Done, fresh).step, CreateStep::ResolveEarly);
    // With leave to replace, the image comes first.
    let replacing = CreatePlan { replace: true, ..fresh };
    assert_eq!(
        Creation::new().advance(CreateEvent::Done, replacing).step,
        CreateStep::ResolveEarly
    );
    // A restore does not resolve its image early.
    let restoring = CreatePlan { restoring: true, ..fresh };
    assert_eq!(Creation::new().advance(CreateEvent::Done, restoring).step, CreateStep::Finish);
}

#[test]
fn invalid_final_config_does_not_replace_existing_state() {
    let replacing = CreatePlan { replace: true, ..plan() };
    for step in [CreateStep::Finish, CreateStep::Validate, CreateStep::CheckRuntime] {
        assert_eq!(failing(replacing, step, CreateEvent::Failed), vec![CreateStep::Failed]);
    }
}

#[test]
fn test_create_local_missing_snapshot_descriptor_preserves_replace_target() {
    let restoring =
        CreatePlan { restoring: true, replace: true, named_snapshot: true, ..plan() };
    let failed = until(restoring, CreateStep::PrepareRestore).advance(CreateEvent::Failed, restoring);
    assert_eq!(failed.step, CreateStep::Failed);
    assert_eq!(failed.storage, Storage::Absent);
    assert_eq!(failed.advance(CreateEvent::Done, restoring), failed);
}

#[test]
fn test_create_local_stored_snapshot_reference_error_is_not_ignored() {
    let restoring = CreatePlan { restoring: true, named_snapshot: true, ..plan() };
    let prepare = until(restoring, CreateStep::PrepareRestore);
    assert_eq!(prepare.advance(CreateEvent::Failed, restoring).step, CreateStep::Failed);
    assert_eq!(prepare.advance(CreateEvent::Done, restoring).step, CreateStep::Validate);
}

#[test]
fn every_step_of_a_creation_comes_in_its_order() {
    let everything = CreatePlan {
        restoring: true,
        oci_requested: true,
        replace: true,
        named_snapshot: true,
        archive: true,
        branch: true,
        checkpoint: true,
        files: true,
        owned_source: true,
        oci: true,
        patches: true,
        owned_volumes: true,
        workdir: true,
        restores: true,
        detached: true,
    };
    let mut creation = Creation::new();
    let mut seen = vec![creation.step];
    while creation.step != CreateStep::Created {
        creation = creation.advance(CreateEvent::Done, everything);
        seen.push(creation.step);
    }
    assert_eq!(
        seen,
        vec![
            CreateStep::Prepare,
            CreateStep::Finish,
            CreateStep::PrepareRestore,
            CreateStep::Validate,
            CreateStep::CheckRuntime,
            CreateStep::DecodeArchive,
            CreateStep::TakeTurn,
            CreateStep::PrepareTarget,
            CreateStep::TakeLifecycle,
            CreateStep::RecheckTarget,
            CreateStep::PublishArchive,
            CreateStep::ReserveBranch,
            CreateStep::CaptureBranch,
            CreateStep::MaterializeCheckpoint,
            CreateStep::ResolveMounts,
            CreateStep::CheckFork,
            CreateStep::MaterializeFiles,
            CreateStep::MaterializeOwned,
            CreateStep::ResolveImage,
            CreateStep::ProvisionRoot,
            CreateStep::EnsureVolumes,
            CreateStep::PrepareVolumes,
            CreateStep::InsertRecord,
            CreateStep::Boot,
            CreateStep::Publish,
            CreateStep::RecordConfig,
            CreateStep::PinManifest,
            CreateStep::CheckWorkdir,
            CreateStep::CompleteRestore,
            CreateStep::Detach,
            CreateStep::Created,
        ]
    );
    assert_eq!(creation.storage, Storage::Recorded);
    assert_eq!(creation.advance(CreateEvent::Failed, everything), creation);
}

#[test]
fn bind_roots_are_patched_in_place() {
    let patched = CreatePlan { patches: true, ..plan() };
    let creation = until(patched, CreateStep::ApplyPatches);
    assert_eq!(creation.storage, Storage::Absent);
    assert_eq!(creation.advance(CreateEvent::Done, patched).step, CreateStep::EnsureVolumes);
}

#[test]
fn failures_undo_what_was_done() {
    let full = CreatePlan { oci: true, workdir: true, restores: true, detached: true, ..plan() };
    let failed = CreateEvent::Failed;
    assert_eq!(failing(full, CreateStep::PrepareVolumes, failed), vec![CreateStep::FinishOwned, CreateStep::Failed]);
    assert_eq!(failing(full, CreateStep::InsertRecord, failed), vec![CreateStep::RollBackVolumes, CreateStep::Failed]);
    let owned = CreatePlan { owned_volumes: true, ..full };
    assert_eq!(failing(owned, CreateStep::InsertRecord, failed), vec![CreateStep::RollBackVolumes, CreateStep::FinishOwned, CreateStep::Failed]);
    assert_eq!(failing(full, CreateStep::Boot, failed), vec![CreateStep::RollBackStartup, CreateStep::FinishOwned, CreateStep::Failed]);
    assert_eq!(
        failing(full, CreateStep::Publish, CreateEvent::Lost),
        vec![CreateStep::Terminate { rollback: false }, CreateStep::FinishOwned, CreateStep::Failed]
    );
    assert_eq!(failing(full, CreateStep::Publish, failed), vec![CreateStep::LeaveToCleanup, CreateStep::Failed]);
    assert_eq!(
        failing(full, CreateStep::RecordConfig, failed),
        vec![CreateStep::Terminate { rollback: false }, CreateStep::FinishOwned, CreateStep::Failed]
    );
    for step in [CreateStep::PinManifest, CreateStep::CheckWorkdir] {
        assert_eq!(
            failing(full, step, failed),
            vec![CreateStep::Terminate { rollback: true }, CreateStep::RollBackStartup, CreateStep::FinishOwned, CreateStep::Failed]
        );
    }
    assert_eq!(
        failing(full, CreateStep::CompleteRestore, failed),
        vec![CreateStep::Terminate { rollback: false }, CreateStep::FinishOwned, CreateStep::Failed]
    );
    assert_eq!(failing(full, CreateStep::Detach, failed), vec![CreateStep::LeaveToCleanup, CreateStep::Failed]);
    let stuck = until(full, CreateStep::Boot).advance(failed, full).advance(failed, full);
    assert_eq!(stuck.step, CreateStep::FailedUnclean);
}

#[test]
fn staged_storage_belongs_to_the_creation_until_it_is_recorded() {
    let archive = CreatePlan { restoring: true, archive: true, oci: true, ..plan() };
    assert_eq!(until(archive, CreateStep::PublishArchive).storage, Storage::Absent);
    assert_eq!(until(archive, CreateStep::ResolveMounts).storage, Storage::Staged);
    assert_eq!(until(archive, CreateStep::InsertRecord).storage, Storage::Staged);
    assert_eq!(until(archive, CreateStep::Boot).storage, Storage::Recorded);
    let owned = CreatePlan { owned_volumes: true, ..archive };
    assert_eq!(until(owned, CreateStep::PrepareVolumes).storage, Storage::Cleanup);
    let branch = CreatePlan { restoring: true, branch: true, ..plan() };
    assert_eq!(until(branch, CreateStep::ReserveBranch).storage, Storage::Absent);
    assert_eq!(until(branch, CreateStep::CaptureBranch).storage, Storage::Staged);
    let checkpoint = CreatePlan { restoring: true, checkpoint: true, ..plan() };
    assert_eq!(until(checkpoint, CreateStep::MaterializeCheckpoint).storage, Storage::Staged);
    let files = CreatePlan { restoring: true, files: true, ..plan() };
    assert_eq!(until(files, CreateStep::CheckFork).storage, Storage::Absent);
    assert_eq!(until(files, CreateStep::MaterializeFiles).storage, Storage::Staged);
}

#[test]
fn anything_captured_makes_a_restore() {
    let nothing = RestoreSources {
        snapshot_reference: false,
        archive: false,
        upper_source: false,
        checkpoint: false,
        branch: false,
        snapshot_parent: false,
    };
    assert!(!nothing.is_restoring());
    for sources in [
        RestoreSources { snapshot_reference: true, ..nothing },
        RestoreSources { archive: true, ..nothing },
        RestoreSources { upper_source: true, ..nothing },
        RestoreSources { checkpoint: true, ..nothing },
        RestoreSources { branch: true, ..nothing },
        RestoreSources { snapshot_parent: true, ..nothing },
    ] {
        assert!(sources.is_restoring());
    }
}
