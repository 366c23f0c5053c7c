//! Launching the sandbox process: its arguments, its mounts and volumes, its descriptors.

use base64::engine::general_purpose::URL_SAFE_NO_PAD;
use base64::Engine;
use microsandbox::agent_socket::{
    agent_socket_hash, ambient_roots, pipe_claimed_error, probe_agent_pipe_server,
    resolve_sandbox_agent_pipe_from_candidates, resolve_sandbox_agent_socket_path,
    resolve_sandbox_agent_socket_path_for, sandbox_agent_pipe_path,
    sandbox_agent_socket_path_candidates_for, startup_pipe_name, AgentPipeProbe, LocalBackend,
    PipeCheck, PipeOpen,
};
use microsandbox::descriptors::{
    inherited_fd_source_needs_spare, move_reserved_source_fd, must_sever, restored_handles,
    HandleInheritState, InheritedFdMapping, ReservedFds, INVALID_HANDLE_VALUE,
};
use microsandbox::disks::{
    disk_lock_mode, disk_lock_requests, lock_disk_error, missing_disk_error, open_disk_error,
    windows_disk_lock_path, DiskAdmissions, DiskLockMode,
};
use microsandbox::error::{MicrosandboxError, MicrosandboxResult};
use microsandbox::host::{is_windows_lock_conflict, IoError, IoErrorKind, EXDEV};
use microsandbox::launch::{
    decode_handoff_args, launch_payload, mounts_are_resolved, sandbox_cli_args, LaunchConfig, LaunchContext,
    LaunchPaths, MetricsSlot,
};
use microsandbox::mounts::{
    encode_rlimits, guest_mount_tag, ResolvedNamedVolume, StagedFileMount,
};
use microsandbox::namemap::NameMap;
use microsandbox::spawn::{
    memory_limit_bytes, prepare_oci_upper, push_config_channel, sandbox_dirs, script_path,
    stdio_targets, windows_script_path, windows_stdio_targets, ConfigChannel, GiveUp, Preparation,
    SpawnEvent, SpawnFailure, SpawnMode, SpawnPlan, SpawnStep, StdioTarget,
};
use microsandbox::staging::{
    after_link, file_bind_mounts, stage_file_mount, stage_file_mounts, windows_stage_file_mount,
    Staging,
};
use microsandbox::types::{
    DiskImageFormat, EnvVar, HandoffInit, HostPermissions, MountOptions, NamedVolumeCreate,
    NamedVolumeMode, OciRootfsSource, Rlimit, RlimitResource, RootDisk, RootfsSource,
    SandboxConfig, SandboxLogLevel, SandboxResources, SandboxSpec, StatVirtualization,
    VolumeKind, VolumeMount,
};
use microsandbox::volumes::{
    decide_request, lock_named_volume_mounts, named_volume_action, new_volume_row,
    resolve_named_volumes, validate_existing_named_volume, EnsureEvent, EnsureStep,
    EnsureVolumes, VolumeAction, VolumeRow,
};

const RESERVED: ReservedFds = ReservedFds { config_fd: 96, parent_watch_fd: 97, startup_fd: 98 };
const DEFAULT_BIND_QUOTA_MIB: u32 = 10_240;

fn text<T>(r: MicrosandboxResult<T>) -> String {
    match r {
        Ok(_) => panic!("accepted"),
        Err(e) => e.message(),
    }
}

fn ok<T>(r: MicrosandboxResult<T>) -> T {
    match r {
        Ok(value) => value,
        Err(e) => panic!("{}", e.message()),
    }
}

fn with_image(image: RootfsSource) -> SandboxConfig {
    SandboxConfig::new(SandboxSpec::new(
        "test".into(),
        image,
        SandboxResources { cpus: 1, memory_mib: 512, max_cpus: 1, max_memory_mib: 512 },
    ))
}

/// A sandbox called `test` on `/tmp/rootfs`.
fn test_config() -> SandboxConfig {
    with_image(RootfsSource::Bind { path: "/tmp/rootfs".into() })
}

fn context() -> LaunchContext {
    LaunchContext {
        sandbox_id: 42,
        db_connect_timeout_secs: 30,
        paths: LaunchPaths {
            db_path: "/tmp/msb.db".into(),
            log_dir: "/tmp/logs".into(),
            runtime_dir: "/tmp/runtime".into(),
            sandboxes_dir: "/tmp/sandboxes".into(),
            agent_sock: "/tmp/agent.sock".into(),
            libkrunfw_path: "/tmp/libkrunfw.dylib".into(),
            vmdk_path: None,
        },
        default_hostname: "test".into(),
        default_bind_quota_mib: DEFAULT_BIND_QUOTA_MIB,
        staged: NameMap::new(),
        volumes: NameMap::new(),
        metrics_slot: None,
        parent_watch_fd: None,
        startup_fd: None,
        startup_pipe: None,
        metrics_interval_ms: 1000,
        windows: false,
    }
}

/// A launch configuration as `--flag value` words.
fn flatten_launch(launch: &LaunchConfig) -> Vec<String> {
    let mut out: Vec<String> = Vec::new();
    let mut pair = |flag: &str, value: &str| {
        out.push(flag.to_string());
        out.push(value.to_string());
    };
    pair("--db-path", &launch.db_path);
    pair("--db-connect-timeout-secs", &launch.db_connect_timeout_secs.to_string());
    pair("--log-dir", &launch.log_dir);
    pair("--runtime-dir", &launch.runtime_dir);
    pair("--sandboxes-dir", &launch.sandboxes_dir);
    pair("--agent-sock", &launch.agent_sock);
    if let Some(d) = launch.max_duration_secs {
        pair("--max-duration", &d.to_string());
    }
    if let Some(i) = launch.idle_timeout_secs {
        pair("--idle-timeout", &i.to_string());
    }
    pair("--libkrunfw-path", &launch.libkrunfw_path);
    if let Some(ms) = launch.metrics.sample_interval_ms {
        pair("--metrics-sample-interval-ms", &ms.to_string());
    }
    if let Some(slot) = &launch.metrics.slot {
        pair("--metrics-shm-name", &slot.shm_name);
        pair("--metrics-slot", &slot.slot.to_string());
        pair("--metrics-generation", &slot.generation.to_string());
    }
    if let Some(p) = &launch.rootfs.path {
        pair("--rootfs-path", p);
    }
    if let Some(d) = &launch.rootfs.disk {
        pair("--rootfs-disk", d);
    }
    if let Some(f) = &launch.rootfs.disk_format {
        pair("--rootfs-disk-format", f);
    }
    if let Some(u) = &launch.rootfs.upper {
        pair("--rootfs-blk", u);
    }
    for m in &launch.mounts {
        pair("--mount", m);
    }
    for d in &launch.disks {
        pair("--disk", d);
    }
    for e in &launch.env {
        pair("--env", e);
    }
    if let Some(w) = &launch.workdir {
        pair("--workdir", w);
    }
    pair("--sandbox-slot", &launch.sandbox_slot.to_string());
    if launch.metrics.disabled {
        out.push("--disable-metrics-sample".to_string());
    }
    if let Some(s) = &launch.startup {
        out.push(format!("--startup-cmd={}", s.cmd));
        for a in &s.args {
            out.push(format!("--startup-arg={a}"));
        }
        for e in &s.env {
            out.push(format!("--startup-env={e}"));
        }
        if let Some(c) = &s.cwd {
            out.push(format!("--startup-cwd={c}"));
        }
        if let Some(u) = &s.user {
            out.push(format!("--startup-user={u}"));
        }
    }
    out
}

fn render_in(config: &SandboxConfig, context: &LaunchContext) -> Vec<String> {
    assert!(mounts_are_resolved(&config.spec.mounts, &context.volumes));
    let (mut visible, launch) = sandbox_cli_args(config, context);
    visible.extend(flatten_launch(&launch));
    visible
}

fn render_args(config: &SandboxConfig) -> Vec<String> {
    render_in(config, &context())
}

fn has_pair(args: &[String], flag: &str, value: &str) -> bool {
    args.windows(2).any(|pair| pair[0] == flag && pair[1] == value)
}

fn has(args: &[String], word: &str) -> bool {
    args.iter().any(|arg| arg == word)
}

fn find_env(args: &[String], key: &str) -> Option<String> {
    let prefix = format!("{key}=");
    args.windows(2).find_map(|pair| {
        if pair[0] == "--env" && pair[1].starts_with(&prefix) {
            Some(pair[1][prefix.len()..].to_string())
        } else {
            None
        }
    })
}

fn decode_strings(value: &str) -> Vec<String> {
    let json = URL_SAFE_NO_PAD.decode(value).expect("base64url payload");
    let strings: Vec<String> = serde_json::from_slice(&json).expect("handoff JSON payload");
    assert_eq!(decode_handoff_args(value), Some(strings.clone()));
    strings
}

fn decode_pairs(value: &str) -> Vec<(String, String)> {
    let json = URL_SAFE_NO_PAD.decode(value).expect("base64url payload");
    serde_json::from_slice(&json).expect("handoff JSON payload")
}

fn bind_mount(host: &str, guest: &str, options: MountOptions, quota_mib: Option<u32>) -> VolumeMount {
    VolumeMount::Bind {
        host: host.into(),
        guest: guest.into(),
        options,
        stat_virtualization: StatVirtualization::Strict,
        host_permissions: HostPermissions::Private,
        quota_mib,
    }
}

fn named_mount(name: &str, guest: &str) -> VolumeMount {
    VolumeMount::Named {
        name: name.into(),
        guest: guest.into(),
        create: None,
        options: MountOptions::default(),
        stat_virtualization: StatVirtualization::Strict,
        host_permissions: HostPermissions::Private,
    }
}

fn tmpfs(guest: &str, size_mib: Option<u32>, options: MountOptions) -> VolumeMount {
    VolumeMount::Tmpfs { guest: guest.into(), size_mib, options }
}

fn named_disk(path: &str) -> ResolvedNamedVolume {
    ResolvedNamedVolume {
        kind: VolumeKind::Disk,
        path: path.into(),
        format: Some(DiskImageFormat::Raw),
        fstype: Some("ext4".into()),
        quota_mib: None,
    }
}

fn readonly() -> MountOptions {
    MountOptions { readonly: true, ..MountOptions::default() }
}

fn named_volume_create(
    name: &str,
    kind: VolumeKind,
    quota_mib: Option<u32>,
    capacity_mib: Option<u32>,
    labels: Vec<(String, String)>,
) -> NamedVolumeCreate {
    NamedVolumeCreate {
        mode: NamedVolumeMode::EnsureExists,
        name: name.into(),
        kind,
        quota_mib,
        capacity_mib,
        labels,
    }
}

fn existing_volume_model(
    name: &str,
    kind: VolumeKind,
    quota_mib: Option<i32>,
    capacity_bytes: Option<i64>,
    labels: Option<Vec<(String, String)>>,
) -> VolumeRow {
    let disk = kind == VolumeKind::Disk;
    VolumeRow {
        id: 1,
        name: name.into(),
        kind: kind.as_str().into(),
        quota_mib,
        capacity_bytes,
        disk_format: if disk { Some("raw".into()) } else { None },
        disk_fstype: if disk { Some("ext4".into()) } else { None },
        labels: labels.map(|labels| serde_json::to_string(&labels).unwrap()),
    }
}

fn label(key: &str, value: &str) -> (String, String) {
    (key.into(), value.into())
}

// ------------------------------------------------------------------------------------------------
// Descriptors
// ------------------------------------------------------------------------------------------------

#[test]
fn test_inherited_fd_source_needs_spare_for_cross_reserved_fd() {
    assert!(inherited_fd_source_needs_spare(
        RESERVED,
        RESERVED.config_fd,
        RESERVED.parent_watch_fd,
    ));
    assert!(inherited_fd_source_needs_spare(
        RESERVED,
        RESERVED.parent_watch_fd,
        RESERVED.startup_fd,
    ));
}

#[test]
fn test_inherited_fd_source_keeps_own_reserved_fd_in_place() {
    assert!(!inherited_fd_source_needs_spare(RESERVED, RESERVED.config_fd, RESERVED.config_fd));
    assert!(!inherited_fd_source_needs_spare(
        RESERVED,
        RESERVED.parent_watch_fd,
        RESERVED.parent_watch_fd,
    ));
}

#[test]
fn test_inherited_fd_source_leaves_ordinary_fd_in_place() {
    assert!(!inherited_fd_source_needs_spare(RESERVED, 42, RESERVED.config_fd));
}

#[test]
fn descriptors_in_the_way_are_moved() {
    let mut mapping = InheritedFdMapping::new(RESERVED.config_fd, RESERVED.startup_fd);
    let mut next = 100;
    assert!(move_reserved_source_fd(RESERVED, &mut mapping, &mut next, Some(103)).is_ok());
    assert_eq!(mapping, InheritedFdMapping { src: 103, dst: RESERVED.startup_fd });
    assert_eq!(next, 104);
    let mut stuck = InheritedFdMapping::new(RESERVED.config_fd, RESERVED.startup_fd);
    assert!(move_reserved_source_fd(RESERVED, &mut stuck, &mut next, None).is_err());
    let mut fine = InheritedFdMapping::new(5, RESERVED.startup_fd);
    assert!(move_reserved_source_fd(RESERVED, &mut fine, &mut next, None).is_ok());
    assert_eq!(fine.src, 5);
}

#[test]
fn standard_handles_are_severed_once_and_given_back() {
    let known = vec![HandleInheritState { handle: 4, flags: 3 }];
    assert!(must_sever(&known, 8, Some(1)));
    assert!(!must_sever(&known, 4, Some(1)));
    assert!(!must_sever(&known, 8, Some(2)));
    assert!(!must_sever(&known, 8, None));
    assert!(!must_sever(&known, 0, Some(1)));
    assert!(!must_sever(&known, INVALID_HANDLE_VALUE, Some(1)));
    let states =
        vec![HandleInheritState { handle: 4, flags: 3 }, HandleInheritState { handle: 8, flags: 1 }];
    assert_eq!(
        restored_handles(&states),
        vec![
            HandleInheritState { handle: 8, flags: 1 },
            HandleInheritState { handle: 4, flags: 1 }
        ]
    );
}

// ------------------------------------------------------------------------------------------------
// Arguments
// ------------------------------------------------------------------------------------------------

#[test]
fn test_sandbox_cli_args_include_selected_log_level() {
    let mut config = test_config();
    config.spec.runtime.log_level = Some(SandboxLogLevel::Debug);
    assert!(has(&render_args(&config), "--debug"));
}

#[test]
fn test_sandbox_cli_args_are_silent_by_default() {
    let args = render_args(&test_config());
    assert!(!args.iter().any(|arg| matches!(
        arg.as_str(),
        "--error" | "--warn" | "--info" | "--debug" | "--trace"
    )));
}

#[test]
fn test_sandbox_cli_args_include_agent_sock_path() {
    assert!(has_pair(&render_args(&test_config()), "--agent-sock", "/tmp/agent.sock"));
}

#[test]
fn test_sandbox_cli_args_include_startup_fd_when_supplied() {
    let context = LaunchContext { startup_fd: Some(RESERVED.startup_fd), ..context() };
    let (visible, _) = sandbox_cli_args(&test_config(), &context);
    // The startup fd is an operator-visible label, so it stays on argv.
    assert!(has_pair(&visible, "--startup-fd", &RESERVED.startup_fd.to_string()));
}

#[test]
fn test_sandbox_cli_args_include_detached_startup_command() {
    let mut config = test_config();
    config.spec.runtime.entrypoint = Some(vec!["/entrypoint".into()]);
    config.spec.env.push(EnvVar { key: "APP_ENV".into(), value: "test".into() });
    config.spec.runtime.workdir = Some("/workspace".into());
    config.spec.runtime.user = Some("nobody".into());
    config.spec.runtime.cmd =
        Some(vec!["/bin/sh".into(), "-lc".into(), "echo detached".into()]);
    config.startup_command_requested = true;

    let rendered = render_args(&config);

    assert!(has(&rendered, "--startup-cmd=/entrypoint"));
    assert!(has(&rendered, "--startup-arg=/bin/sh"));
    assert!(has(&rendered, "--startup-arg=-lc"));
    assert!(has(&rendered, "--startup-arg=echo detached"));
    assert!(has(&rendered, "--startup-env=APP_ENV=test"));
    assert!(has(&rendered, "--startup-cwd=/workspace"));
    assert!(has(&rendered, "--startup-user=nobody"));
}

#[test]
fn test_sandbox_cli_args_include_startup_pipe_when_supplied() {
    let pipe = r"\\.\pipe\msb-startup-test";
    let context = LaunchContext { startup_pipe: Some(pipe.into()), ..context() };
    let (visible, _) = sandbox_cli_args(&test_config(), &context);
    assert!(has_pair(&visible, "--startup-pipe", pipe));
}

#[test]
fn test_sandbox_cli_args_skip_startup_exec_when_init_owns_argv() {
    let mut config = test_config();
    config.spec.runtime.workdir = Some("/opt/hermes".into());
    config.spec.runtime.cmd = Some(vec!["gateway".into(), "run".into()]);
    config.spec.init = Some(HandoffInit {
        cmd: "/init".into(),
        args: vec![
            "/opt/hermes/docker/main-wrapper.sh".into(),
            "gateway".into(),
            "run".into(),
        ],
        env: Vec::new(),
    });
    config.startup_command_requested = false;

    let rendered = render_args(&config);

    assert_eq!(find_env(&rendered, "MSB_HANDOFF_INIT").as_deref(), Some("/init"));
    let argv = find_env(&rendered, "MSB_HANDOFF_INIT_ARGS").expect("argv env present");
    assert_eq!(
        decode_strings(&argv),
        vec!["/opt/hermes/docker/main-wrapper.sh", "gateway", "run"]
    );
    assert_eq!(find_env(&rendered, "MSB_HANDOFF_INIT_CWD").as_deref(), Some("/opt/hermes"));
    assert!(!rendered.iter().any(|arg| arg.starts_with("--startup-cmd")));
    assert!(!rendered.iter().any(|arg| arg.starts_with("--startup-arg")));
}

#[test]
fn test_sandbox_cli_args_include_rlimits_env() {
    let mut config = test_config();
    config.spec.rlimits.push(Rlimit {
        resource: RlimitResource::Nofile,
        soft: 65_535,
        hard: 65_535,
    });
    assert!(has_pair(&render_args(&config), "--env", "MSB_RLIMITS=nofile=65535:65535"));
}

#[test]
fn test_visible_args_keep_labels_and_omit_bulk() {
    let mut config = test_config();
    config.spec.env.push(EnvVar { key: "TOKEN".into(), value: "secret".into() });

    let (visible, _) = sandbox_cli_args(&config, &context());
    let all = render_args(&config);

    // Operator-readable labels stay on argv.
    assert_eq!(visible.first().map(String::as_str), Some("sandbox"));
    assert!(has_pair(&visible, "--name", "test"));
    assert!(has(&visible, "--vcpus"));
    assert!(has(&visible, "--memory-mib"));

    // Bulk / secret-bearing flags never appear on argv...
    for flag in ["--env", "--db-path", "--log-dir", "--agent-sock"] {
        assert!(!has(&visible, flag), "visible argv unexpectedly contains {flag}");
    }
    assert!(!visible.iter().any(|a| a.contains("TOKEN=secret")));

    // ...but are present in the full (piped) arg set.
    assert!(has(&all, "--db-path"));
    assert!(all.iter().any(|a| a.contains("TOKEN=secret")));
}

#[test]
fn test_encode_rlimits_round_trips_through_protocol_parser() {
    let rlimits = vec![
        Rlimit { resource: RlimitResource::Nofile, soft: 4096, hard: 65_535 },
        Rlimit { resource: RlimitResource::Nproc, soft: 1024, hard: 1024 },
    ];
    let encoded = encode_rlimits(&rlimits);
    let parsed: Vec<(String, u64, u64)> = encoded
        .split(';')
        .map(|entry| {
            let (resource, limits) = entry.split_once('=').unwrap();
            let (soft, hard) = limits.split_once(':').unwrap();
            (resource.to_string(), soft.parse().unwrap(), hard.parse().unwrap())
        })
        .collect();
    assert_eq!(
        parsed,
        vec![("nofile".to_string(), 4096, 65_535), ("nproc".to_string(), 1024, 1024)]
    );
}

#[test]
fn test_sandbox_cli_args_emit_metrics_interval_flag() {
    let mut config = test_config();
    config.spec.runtime.metrics_sample_interval_ms = Some(1000);
    assert!(has_pair(&render_args(&config), "--metrics-sample-interval-ms", "1000"));
}

#[test]
fn test_sandbox_cli_args_include_custom_metrics_sample_interval() {
    let mut config = test_config();
    config.spec.runtime.metrics_sample_interval_ms = Some(2500);
    assert!(has_pair(&render_args(&config), "--metrics-sample-interval-ms", "2500"));
}

#[test]
fn test_sandbox_cli_args_disabled_metrics_emit_disable_flag() {
    let mut config = test_config();
    config.spec.runtime.metrics_sample_interval_ms = Some(0);
    let rendered = render_args(&config);
    assert!(has(&rendered, "--disable-metrics-sample"));
    assert!(!has(&rendered, "--metrics-sample-interval-ms"));
}

#[test]
fn test_sandbox_cli_args_disable_overrides_positive_interval() {
    let mut config = test_config();
    config.spec.runtime.metrics_sample_interval_ms = Some(2500);
    config.spec.runtime.disable_metrics_sample = true;
    let rendered = render_args(&config);
    assert!(has(&rendered, "--disable-metrics-sample"));
    assert!(!has(&rendered, "--metrics-sample-interval-ms"));
}

#[test]
fn metrics_slots_reach_the_process() {
    let slot = MetricsSlot { shm_name: "msb-metrics".into(), slot: 3, generation: 9 };
    let context = LaunchContext { metrics_slot: Some(slot), ..context() };
    let rendered = render_in(&test_config(), &context);
    assert!(has_pair(&rendered, "--metrics-shm-name", "msb-metrics"));
    assert!(has_pair(&rendered, "--metrics-slot", "3"));
    assert!(has_pair(&rendered, "--metrics-generation", "9"));
    assert!(has_pair(&rendered, "--sandbox-slot", "42"));
}

#[test]
fn test_sandbox_cli_args_include_db_connect_timeout() {
    assert!(has_pair(&render_args(&test_config()), "--db-connect-timeout-secs", "30"));
}

#[test]
fn test_sandbox_cli_args_use_passthrough_for_bind_rootfs() {
    let rendered = render_args(&test_config());
    assert!(has_pair(&rendered, "--rootfs-path", "/tmp/rootfs"));
    assert!(!has(&rendered, "--rootfs-lower"));
    assert!(!has(&rendered, "--rootfs-upper"));
    assert!(!has(&rendered, "--rootfs-staging"));
}

#[test]
fn test_sandbox_cli_args_oci_without_manifest_digest_emits_no_block_root() {
    let config = with_image(RootfsSource::Oci(OciRootfsSource {
        reference: "alpine".into(),
        root_disk: None,
    }));
    let rendered = render_args(&config);
    assert!(!has(&rendered, "--rootfs-blk"));
    assert!(!has(&rendered, "--rootfs-disk"));
    assert!(!rendered.iter().any(|a| a.starts_with("MSB_BLOCK_ROOT=")));
}

#[test]
fn test_sandbox_cli_args_inject_tmpfs_env_var() {
    let mut config = test_config();
    config.spec.mounts.push(tmpfs("/tmp", Some(256), MountOptions::default()));
    config.spec.mounts.push(tmpfs("/var/tmp", None, MountOptions::default()));
    assert!(has(&render_args(&config), "MSB_TMPFS=/tmp:size=256;/var/tmp"));
}

#[test]
fn test_sandbox_cli_args_tmpfs_readonly_appends_ro() {
    let mut config = test_config();
    config.spec.mounts.push(tmpfs("/seed", Some(64), readonly()));
    assert!(has(&render_args(&config), "MSB_TMPFS=/seed:size=64,ro"));
}

#[test]
fn test_sandbox_cli_args_omit_tmpfs_env_var_when_no_tmpfs() {
    let rendered = render_args(&test_config());
    assert!(!rendered.iter().any(|a| a.starts_with("MSB_TMPFS=")));
}

#[test]
fn test_sandbox_cli_args_disk_image_with_fstype() {
    let config = with_image(RootfsSource::DiskImage {
        path: "/tmp/ubuntu.qcow2".into(),
        format: DiskImageFormat::Qcow2,
        fstype: Some("ext4".into()),
    });
    let rendered = render_args(&config);
    assert!(has_pair(&rendered, "--rootfs-disk", "/tmp/ubuntu.qcow2"));
    assert!(has_pair(&rendered, "--rootfs-disk-format", "qcow2"));
    assert!(has(
        &rendered,
        "MSB_BLOCK_ROOT=kind=disk-image,device=/dev/vda,fstype=ext4"
    ));
    assert!(!has(&rendered, "--rootfs-path"));
    assert!(!has(&rendered, "--rootfs-lower"));
    assert!(!has(&rendered, "--rootfs-upper"));
    assert!(!has(&rendered, "--rootfs-staging"));
}

#[test]
fn test_sandbox_cli_args_disk_image_without_fstype() {
    let config = with_image(RootfsSource::DiskImage {
        path: "/tmp/alpine.raw".into(),
        format: DiskImageFormat::Raw,
        fstype: None,
    });
    let rendered = render_args(&config);
    assert!(has_pair(&rendered, "--rootfs-disk", "/tmp/alpine.raw"));
    assert!(has_pair(&rendered, "--rootfs-disk-format", "raw"));
    assert!(has(&rendered, "MSB_BLOCK_ROOT=kind=disk-image,device=/dev/vda"));
    assert!(!has(&rendered, "--rootfs-path"));
    assert!(!has(&rendered, "--rootfs-lower"));
}

fn staged(guest: &str, dir: &str, filename: &str, tag: &str) -> LaunchContext {
    let mount = StagedFileMount { dir: dir.into(), filename: filename.into(), tag: tag.into() };
    LaunchContext { staged: NameMap::new().with(guest.into(), mount), ..context() }
}

#[test]
fn test_sandbox_cli_args_file_mount_generates_correct_args() {
    let mut config = test_config();
    let options = MountOptions { readonly: true, noexec: true, ..MountOptions::default() };
    config.spec.mounts.push(bind_mount("/host/config.txt", "/guest/config.txt", options, None));
    let context =
        staged("/guest/config.txt", "/tmp/staging/fm_aabbccdd", "config.txt", "fm_aabbccdd");

    let rendered = render_in(&config, &context);

    // File mount should use staging dir in --mount.
    assert!(has_pair(&rendered, "--mount", "fm_aabbccdd:/tmp/staging/fm_aabbccdd:ro,noexec"));
    // MSB_FILE_MOUNTS should contain the spec.
    assert!(has(
        &rendered,
        "MSB_FILE_MOUNTS=fm_aabbccdd:config.txt:/guest/config.txt:ro,noexec"
    ));
    // MSB_DIR_MOUNTS should NOT contain the file mount.
    assert!(!rendered.iter().any(|a| a.starts_with("MSB_DIR_MOUNTS=")));
}

#[test]
fn test_sandbox_cli_args_mixed_file_and_dir_mounts() {
    let mut config = test_config();
    let plain = MountOptions::default();
    config.spec.mounts.push(bind_mount("/host/data", "/data", plain, None));
    config.spec.mounts.push(bind_mount("/host/file.txt", "/guest/file.txt", plain, None));
    let context =
        staged("/guest/file.txt", "/tmp/staging/fm_11223344", "file.txt", "fm_11223344");

    let rendered = render_in(&config, &context);

    let data_tag = guest_mount_tag("/data");
    assert!(has(&rendered, &format!("MSB_DIR_MOUNTS={data_tag}:/data")));
    assert!(has(&rendered, "MSB_FILE_MOUNTS=fm_11223344:file.txt:/guest/file.txt"));
}

#[test]
fn test_sandbox_cli_args_bind_mount_gets_default_quota() {
    let mut config = test_config();
    config.spec.mounts.push(bind_mount("/host/data", "/data", MountOptions::default(), None));
    let data_tag = guest_mount_tag("/data");
    let expected = format!("{data_tag}:/host/data:quota={DEFAULT_BIND_QUOTA_MIB}");
    assert!(has_pair(&render_args(&config), "--mount", &expected));
}

#[test]
fn test_sandbox_cli_args_bind_mount_quota_override() {
    let mut config = test_config();
    let options = MountOptions::default();
    config.spec.mounts.push(bind_mount("/host/data", "/data", options, Some(2048)));
    let expected = format!("{}:/host/data:quota=2048", guest_mount_tag("/data"));
    assert!(has_pair(&render_args(&config), "--mount", &expected));
}

#[test]
fn test_sandbox_cli_args_windows_drive_bind_mount_preserves_drive_colon() {
    let mut config = test_config();
    config.spec.mounts.push(VolumeMount::Bind {
        host: r"C:\Users\Stephen\data".into(),
        guest: "/data".into(),
        options: readonly(),
        stat_virtualization: StatVirtualization::Relaxed,
        host_permissions: HostPermissions::Mirror,
        quota_mib: None,
    });
    let rendered = render_args(&config);
    let data_tag = guest_mount_tag("/data");
    let expected = format!(
        r"{data_tag}:C:\Users\Stephen\data:ro,stat-virt=relaxed,host-perms=mirror,quota={DEFAULT_BIND_QUOTA_MIB}"
    );
    assert!(has_pair(&rendered, "--mount", &expected), "{rendered:?}");
    assert!(has(&rendered, &format!("MSB_DIR_MOUNTS={data_tag}:/data:ro")));
}

#[test]
fn test_sandbox_cli_args_windows_drive_file_mount_preserves_drive_colon() {
    let mut config = test_config();
    config.spec.mounts.push(bind_mount(
        r"C:\Users\Stephen\config.txt",
        "/guest/config.txt",
        readonly(),
        None,
    ));
    let dir = r"C:\Users\Stephen\AppData\Local\Temp\msb\fm_deadbeef";
    let context = staged("/guest/config.txt", dir, "config.txt", "fm_deadbeef");
    let rendered = render_in(&config, &context);
    assert!(has_pair(&rendered, "--mount", &format!("fm_deadbeef:{dir}:ro")));
    assert!(has(&rendered, "MSB_FILE_MOUNTS=fm_deadbeef:config.txt:/guest/config.txt:ro"));
}

#[test]
fn test_sandbox_cli_args_named_disk_volume() {
    let mut config = test_config();
    config.spec.mounts.push(named_mount("docker-data", "/var/lib/docker"));
    let raw_path = "/tmp/docker-data/disk.raw";
    let volumes = NameMap::new().with("docker-data".into(), named_disk(raw_path));
    let rendered = render_in(&config, &LaunchContext { volumes, ..context() });
    let tag = guest_mount_tag("/var/lib/docker");
    assert!(has_pair(&rendered, "--disk", &format!("{tag}:{raw_path}:raw")));
    assert!(has(&rendered, &format!("MSB_DISK_MOUNTS={tag}:/var/lib/docker:fstype=ext4")));
    assert!(
        !rendered
            .iter()
            .any(|arg| arg.starts_with("MSB_DIR_MOUNTS=") && arg.contains("/var/lib/docker")),
        "named disk volume must not be routed through virtiofs: {rendered:?}"
    );
}

#[test]
fn test_sandbox_cli_args_named_directory_volume() {
    let mut config = test_config();
    config.spec.mounts.push(named_mount("mydir", "/data"));
    let directory = ResolvedNamedVolume {
        kind: VolumeKind::Directory,
        path: "/tmp/mydir".into(),
        format: None,
        fstype: None,
        quota_mib: Some(512),
    };
    let volumes = NameMap::new().with("mydir".into(), directory);
    let rendered = render_in(&config, &LaunchContext { volumes, ..context() });
    let tag = guest_mount_tag("/data");
    assert!(has_pair(&rendered, "--mount", &format!("{tag}:/tmp/mydir:quota=512")));
    assert!(has(&rendered, &format!("MSB_DIR_MOUNTS={tag}:/data")));
    assert!(!has(&rendered, "--disk"));
    assert!(!rendered.iter().any(|arg| arg.starts_with("MSB_DISK_MOUNTS=")));
}

#[test]
fn unresolved_volumes_are_seen() {
    let mounts = vec![named_mount("mydir", "/data")];
    assert!(!mounts_are_resolved(&mounts, &NameMap::new()));
    let volumes = NameMap::new().with("mydir".into(), named_disk("/d"));
    assert!(mounts_are_resolved(&mounts, &volumes));
}

fn disk_mount(host: &str, guest: &str, format: DiskImageFormat, fstype: Option<&str>, options: MountOptions) -> VolumeMount {
    VolumeMount::DiskImage {
        host: host.into(),
        guest: guest.into(),
        format,
        fstype: fstype.map(str::to_string),
        options,
    }
}

#[test]
fn test_sandbox_cli_args_disk_image_volume() {
    let mut config = test_config();
    let host = "/tmp/images/data.qcow2";
    let options = MountOptions::default();
    config.spec.mounts.push(disk_mount(host, "/data", DiskImageFormat::Qcow2, Some("ext4"), options));
    let rendered = render_args(&config);
    let data_tag = guest_mount_tag("/data");
    assert!(has_pair(&rendered, "--disk", &format!("{data_tag}:{host}:qcow2")));
    assert!(has(&rendered, &format!("MSB_DISK_MOUNTS={data_tag}:/data:fstype=ext4")));
}

#[test]
fn test_sandbox_cli_args_disk_image_readonly() {
    let mut config = test_config();
    let host = "/tmp/images/seed.raw";
    let options = MountOptions { readonly: true, noexec: true, ..MountOptions::default() };
    config.spec.mounts.push(disk_mount(host, "/seed", DiskImageFormat::Raw, None, options));
    let rendered = render_args(&config);
    let tag = guest_mount_tag("/seed");
    assert!(has_pair(&rendered, "--disk", &format!("{tag}:{host}:raw:ro")));
    assert!(has(&rendered, &format!("MSB_DISK_MOUNTS={tag}:/seed:ro,noexec")));
}

// ------------------------------------------------------------------------------------------------
// Sockets and pipes
// ------------------------------------------------------------------------------------------------

fn backend() -> LocalBackend {
    LocalBackend {
        run_dir: "/tmp/msb/msb-home/run".into(),
        sandboxes_dir: "/tmp/msb/msb-home/sandboxes".into(),
        volumes_dir: "/tmp/msb/msb-home/volumes".into(),
        socket_path_capacity: 108,
        stop_timeout_ms: 10_000,
    }
}

#[test]
fn test_agent_socket_candidates_follow_explicit_local_backend_paths() {
    let candidates = sandbox_agent_socket_path_candidates_for(&backend(), "sdk-socket-test");
    assert_eq!(candidates.len(), 2);
    assert!(candidates[0].starts_with("/tmp/msb/msb-home/run/agent/"));
    assert_eq!(candidates[1], "/tmp/msb/msb-home/sandboxes/sdk-socket-test/runtime/agent.sock");
    assert!(sandbox_agent_pipe_path("sdk-socket-test").starts_with(r"\\.\pipe\msb-agent-"));
}

#[test]
fn test_agent_socket_resolution_uses_explicit_local_backend_paths() {
    let resolved = ok(resolve_sandbox_agent_socket_path_for(&backend(), "sdk-socket-test"));
    assert!(resolved.starts_with("/tmp/msb/msb-home/run/agent/"));
    let long = "d".repeat(200);
    // Where the first path is too long, the second counts.
    let second = ok(resolve_sandbox_agent_socket_path(&long, "/s", "w", 108));
    assert_eq!(second, "/s/w/runtime/agent.sock");
    assert!(resolve_sandbox_agent_socket_path(&long, &long, "w", 108).is_err());
    let pipe = ok(resolve_sandbox_agent_pipe_from_candidates(vec!["p".into()]));
    assert_eq!(pipe, "p");
}

#[test]
fn ambient_sockets_follow_the_backend_or_the_home() {
    let own = ambient_roots(Some(&backend()), "/home/u", "run", "sandboxes");
    assert_eq!(own.0, "/tmp/msb/msb-home/run");
    assert_eq!(own.1, "/tmp/msb/msb-home/sandboxes");
    let usual = ambient_roots(None, "/home/u", "run", "sandboxes");
    assert_eq!(usual, ("/home/u/run".to_string(), "/home/u/sandboxes".to_string()));
}

#[test]
fn socket_names_are_digests() {
    // The first half of the SHA-256 digest of "abc".
    assert_eq!(agent_socket_hash("abc"), "ba7816bf8f01cfea414140de5dae2223");
    let name = startup_pipe_name("worker", 7, &[1, 2, 3]);
    assert!(name.starts_with(r"\\.\pipe\msb-startup-7-"), "{name}");
    assert_ne!(name, startup_pipe_name("worker", 7, &[1, 2, 4]));
}

#[test]
fn served_pipes_are_refused() {
    let served = probe_agent_pipe_server(PipeOpen::Opened { server_pid: Some(9) });
    assert_eq!(served, Ok(AgentPipeProbe::Served { server_pid: Some(9) }));
    assert_eq!(probe_agent_pipe_server(PipeOpen::NotFound), Ok(AgentPipeProbe::Free));
    let mut check = PipeCheck::new();
    let mut probes = 0;
    while !matches!(check, PipeCheck::Claimed { .. }) {
        check = check.probed(served);
        probes += 1;
        if matches!(check, PipeCheck::Wait { .. }) {
            check = check.waited();
        }
    }
    assert!(probes > 1);
    assert_eq!(check, PipeCheck::Claimed { server_pid: Some(9) });
    assert_eq!(PipeCheck::new().probed(Ok(AgentPipeProbe::Free)), PipeCheck::Clear);
    assert_eq!(PipeCheck::new().probed(Err(5)), PipeCheck::Clear);
    assert!(pipe_claimed_error(r"\\.\pipe\p", "worker", Some(9)).message().contains("9"));
}

// ------------------------------------------------------------------------------------------------
// Volumes
// ------------------------------------------------------------------------------------------------

#[test]
fn test_validate_existing_named_volume_rejects_quota_mismatch() {
    let requested =
        named_volume_create("mydir", VolumeKind::Directory, Some(1024), None, Vec::new());
    let existing = existing_volume_model("mydir", VolumeKind::Directory, Some(512), None, None);
    let err = text(validate_existing_named_volume(&requested, &existing));
    assert!(err.contains("quota"), "got: {err}");
}

#[test]
fn test_validate_existing_named_volume_rejects_capacity_mismatch() {
    let requested = named_volume_create("mydisk", VolumeKind::Disk, None, Some(2048), Vec::new());
    let existing_capacity_bytes = 1024_i64 * 1024 * 1024;
    let existing = existing_volume_model(
        "mydisk",
        VolumeKind::Disk,
        None,
        Some(existing_capacity_bytes),
        None,
    );
    let err = text(validate_existing_named_volume(&requested, &existing));
    assert!(err.contains("capacity"), "got: {err}");
}

#[test]
fn test_validate_existing_named_volume_rejects_requested_label_mismatch() {
    let requested = named_volume_create(
        "mydir",
        VolumeKind::Directory,
        None,
        None,
        vec![label("env", "prod")],
    );
    let existing = existing_volume_model(
        "mydir",
        VolumeKind::Directory,
        None,
        None,
        Some(vec![label("env", "dev")]),
    );
    let err = text(validate_existing_named_volume(&requested, &existing));
    assert!(err.contains("label"), "got: {err}");
}

#[test]
fn test_validate_existing_named_volume_allows_extra_existing_labels() {
    let requested = named_volume_create(
        "mydir",
        VolumeKind::Directory,
        None,
        None,
        vec![label("env", "prod")],
    );
    let existing = existing_volume_model(
        "mydir",
        VolumeKind::Directory,
        None,
        None,
        Some(vec![label("env", "prod"), label("team", "runtime")]),
    );
    ok(validate_existing_named_volume(&requested, &existing));
}

#[test]
fn existing_volumes_of_another_kind_are_refused() {
    let requested = named_volume_create("v", VolumeKind::Disk, None, Some(1), Vec::new());
    let existing = existing_volume_model("v", VolumeKind::Directory, None, None, None);
    assert!(validate_existing_named_volume(&requested, &existing).is_err());
    // A row whose labels cannot be read has none that can be compared.
    let requested =
        named_volume_create("v", VolumeKind::Directory, None, None, vec![label("a", "b")]);
    let mut broken = existing_volume_model("v", VolumeKind::Directory, None, None, None);
    broken.labels = Some("not json".into());
    assert!(validate_existing_named_volume(&requested, &broken).is_err());
}

#[test]
fn new_volumes_are_accepted_again() {
    for create in [
        named_volume_create("d", VolumeKind::Directory, Some(7), None, vec![label("a", "b")]),
        named_volume_create("k", VolumeKind::Disk, None, Some(8), Vec::new()),
    ] {
        let row = new_volume_row(&create, 5);
        assert_eq!(row.id, 5);
        assert_eq!(row.name, create.name);
        ok(validate_existing_named_volume(&create, &row));
    }
    let create =
        named_volume_create("d", VolumeKind::Directory, None, None, vec![label("a", "b")]);
    assert_eq!(new_volume_row(&create, 1).labels.as_deref(), Some("[[\"a\",\"b\"]]"));
}

fn ensure(total: usize, events: &[EnsureEvent]) -> EnsureVolumes {
    let mut state = EnsureVolumes::new(total);
    for event in events {
        state.advance(*event, total);
    }
    state
}

#[test]
fn test_ensure_named_volumes_rolls_back_db_row_on_provision_failure() {
    let state = ensure(
        1,
        &[
            EnsureEvent::Passed,
            EnsureEvent::Decided(true),
            EnsureEvent::Passed,
            EnsureEvent::Inserted(7),
            EnsureEvent::Failed,
        ],
    );
    assert_eq!(state.step, EnsureStep::Discard { id: 7 });
    assert!(state.created.is_empty());
    let mut state = state;
    state.advance(EnsureEvent::Passed, 1);
    assert_eq!(state.step, EnsureStep::Failed);
}

#[test]
fn test_ensure_named_volumes_rolls_back_earlier_created_volumes_on_later_failure() {
    let mut state = ensure(
        2,
        &[
            EnsureEvent::Passed,
            EnsureEvent::Decided(true),
            EnsureEvent::Passed,
            EnsureEvent::Inserted(7),
            EnsureEvent::Passed,
            EnsureEvent::Passed,
            EnsureEvent::Decided(true),
            EnsureEvent::Failed,
        ],
    );
    assert_eq!(state.step, EnsureStep::RollBack);
    assert_eq!(state.created, vec![7]);
    state.advance(EnsureEvent::Passed, 2);
    assert_eq!(state.step, EnsureStep::Failed);
}

#[test]
fn test_resolve_named_volumes_recovers_disk_metadata_from_store() {
    let mut config = test_config();
    config.spec.mounts.push(named_mount("mydata", "/data"));
    let row = existing_volume_model("mydata", VolumeKind::Disk, None, None, None);
    let rows = NameMap::new().with("mydata".into(), row);
    let resolved = ok(resolve_named_volumes(
        &config.spec.mounts,
        &rows,
        &vec![None],
        &vec![String::new()],
        "/home/volumes",
        false,
    ));
    let volume = resolved.get("mydata").expect("volume should resolve");
    assert_eq!(volume.kind, VolumeKind::Disk);
    assert_eq!(volume.format, Some(DiskImageFormat::Raw));
    assert_eq!(volume.fstype.as_deref(), Some("ext4"));
    assert_eq!(volume.path, "/home/volumes/mydata/disk.raw");

    let path = volume.path.clone();
    let rendered = render_in(&config, &LaunchContext { volumes: resolved, ..context() });
    let tag = guest_mount_tag("/data");
    assert!(has_pair(&rendered, "--disk", &format!("{tag}:{path}:raw")));
    assert!(has(&rendered, &format!("MSB_DISK_MOUNTS={tag}:/data:fstype=ext4")));
}

#[test]
fn volumes_that_are_not_there_do_not_resolve() {
    let mounts = vec![named_mount("gone", "/data")];
    let errors = vec!["unknown disk image format: vdi".to_string()];
    let r = resolve_named_volumes(&mounts, &NameMap::new(), &vec![None], &errors, "/v", false);
    assert!(matches!(r, Err(MicrosandboxError::VolumeNotFound(_))));

    let mut row = existing_volume_model("gone", VolumeKind::Disk, None, None, None);
    row.disk_format = Some("vdi".into());
    let rows = NameMap::new().with("gone".into(), row);
    assert_eq!(
        text(resolve_named_volumes(&mounts, &rows, &vec![None], &errors, "/v", false)),
        "invalid config: disk named volume \"gone\" has invalid disk format: unknown disk image format: vdi"
    );
    let objections = vec![Some("not on a disk".to_string())];
    assert_eq!(
        text(resolve_named_volumes(&mounts, &rows, &objections, &errors, "/v", false)),
        "invalid config: not on a disk"
    );
}

#[test]
fn test_existing_named_volume_mode_does_not_validate_default_metadata() {
    let create = NamedVolumeCreate {
        mode: NamedVolumeMode::Existing,
        ..named_volume_create("docker-data", VolumeKind::Directory, None, None, Vec::new())
    };
    let capacity = Some(2048_i64 * 1024 * 1024);
    let existing =
        existing_volume_model("docker-data", VolumeKind::Disk, None, capacity, None);
    // The volume is there: nothing is made, and nothing is held against it.
    assert!(!ok(decide_request(&create, &Some(existing))));
}

#[test]
fn volume_modes_decide_about_requests() {
    assert_eq!(named_volume_action(NamedVolumeMode::EnsureExists, false), VolumeAction::Make);
    let create = |mode| NamedVolumeCreate {
        mode,
        ..named_volume_create("v", VolumeKind::Directory, None, None, Vec::new())
    };
    let row = || existing_volume_model("v", VolumeKind::Directory, None, None, None);
    assert!(ok(decide_request(&create(NamedVolumeMode::EnsureExists), &None)));
    assert!(!ok(decide_request(&create(NamedVolumeMode::EnsureExists), &Some(row()))));
    assert!(ok(decide_request(&create(NamedVolumeMode::Create), &None)));
    assert!(matches!(
        decide_request(&create(NamedVolumeMode::Create), &Some(row())),
        Err(MicrosandboxError::VolumeAlreadyExists(_))
    ));
    assert!(matches!(
        decide_request(&create(NamedVolumeMode::Existing), &None),
        Err(MicrosandboxError::VolumeNotFound(_))
    ));
}

#[test]
fn volume_locks_come_in_order_and_once() {
    let mounts = vec![
        named_mount("b", "/1"),
        named_mount("a", "/2"),
        tmpfs("/tmp", None, MountOptions::default()),
        named_mount("b", "/3"),
    ];
    assert_eq!(lock_named_volume_mounts(&mounts), vec!["a", "b"]);
}

// ------------------------------------------------------------------------------------------------
// Disks
// ------------------------------------------------------------------------------------------------

/// Admits the disks of a sandbox one by one; every path is canonical.
fn lock_disk_mounts(
    config: &SandboxConfig,
    volumes: &NameMap<ResolvedNamedVolume>,
) -> MicrosandboxResult<usize> {
    let mut admitted = DiskAdmissions::new();
    let mut count = 0;
    for request in disk_lock_requests(config, volumes) {
        admitted = admitted.accept(&request.path, &request.label)?;
        count += 1;
    }
    Ok(count)
}

#[test]
fn test_lock_disk_mounts_rejects_rootfs_and_mount_same_path() {
    let disk = "/tmp/disks/root.raw";
    let mut config = with_image(RootfsSource::DiskImage {
        path: disk.into(),
        format: DiskImageFormat::Raw,
        fstype: None,
    });
    let options = MountOptions::default();
    config.spec.mounts.push(disk_mount(disk, "/data", DiskImageFormat::Raw, None, options));
    let err = text(lock_disk_mounts(&config, &NameMap::new()));
    assert!(err.contains("more than once per sandbox"), "{err}");
}

#[test]
fn test_lock_disk_mounts_rejects_duplicate_named_disk_volume() {
    let mut config = test_config();
    config.spec.mounts.push(named_mount("data", "/data-a"));
    config.spec.mounts.push(named_mount("data", "/data-b"));
    let volumes = NameMap::new().with("data".into(), named_disk("/tmp/disks/disk.raw"));
    let err = text(lock_disk_mounts(&config, &volumes));
    assert!(err.contains("more than once per sandbox"), "{err}");
}

#[test]
fn different_disks_are_admitted() {
    let mut config = test_config();
    let options = MountOptions::default();
    config.spec.mounts.push(disk_mount("/a.raw", "/a", DiskImageFormat::Raw, None, options));
    config.spec.mounts.push(disk_mount("/b.raw", "/b", DiskImageFormat::Raw, None, readonly()));
    assert_eq!(ok(lock_disk_mounts(&config, &NameMap::new())), 2);
    assert_eq!(disk_lock_mode(true), DiskLockMode::Shared);
    assert_eq!(disk_lock_mode(false), DiskLockMode::Exclusive);
}

#[test]
fn test_lock_disk_image_windows_uses_sidecar_lock() {
    let lock_path = ok(windows_disk_lock_path("/tmp/disks/disk.raw"));
    assert_eq!(lock_path, "/tmp/disks\\disk.raw.lock");
    assert_eq!(ok(windows_disk_lock_path("C:\\d\\disk.raw")), "C:\\d\\disk.raw.lock");
    assert_eq!(ok(windows_disk_lock_path("C:\\d\\disk.raw\\")), "C:\\d\\disk.raw.lock");
    assert_eq!(ok(windows_disk_lock_path("disk.raw")), "disk.raw.lock");
    assert_eq!(
        text(windows_disk_lock_path("C:")),
        "invalid config: disk image path has no file name: C:"
    );
    let err = lock_disk_error("/tmp/disks/disk.raw", Some("data"), true, "").message();
    assert!(err.contains("already attached"), "{err}");
    assert_eq!(
        text(windows_disk_lock_path("/")),
        "invalid config: disk image path has no file name: /"
    );
    assert!(is_windows_lock_conflict(IoError { kind: IoErrorKind::Other, raw: Some(32) }));
    assert!(!is_windows_lock_conflict(IoError { kind: IoErrorKind::NotFound, raw: Some(2) }));
}

#[test]
fn disk_failures_say_which_disk() {
    assert_eq!(
        missing_disk_error("/d", "gone").message(),
        "invalid config: disk image host path does not exist: /d (gone)"
    );
    assert!(open_disk_error("/d", "denied").message().contains("open disk image lock /d: denied"));
    assert!(lock_disk_error("/d", None, false, "io").message().contains("lock disk image /d: io"));
    assert!(lock_disk_error("/d", None, true, "").message().contains("disk image \"/d\""));
}

// ------------------------------------------------------------------------------------------------
// Tags
// ------------------------------------------------------------------------------------------------

#[test]
fn test_guest_mount_tag_is_deterministic() {
    assert_eq!(guest_mount_tag("/data"), guest_mount_tag("/data"));
}

#[test]
fn test_guest_mount_tag_disambiguates_colliding_paths() {
    let a = guest_mount_tag("/var/log");
    let b = guest_mount_tag("/var_log");
    assert_ne!(a, b);
    assert!(a.starts_with("var_log_"));
    assert!(b.starts_with("var_log_"));
}

#[test]
fn test_guest_mount_tag_fits_virtio_blk_serial_limit() {
    let long = "/a/very/deeply/nested/guest/mount/point/that/exceeds/the/slug/cap";
    let tag = guest_mount_tag(long);
    assert!(tag.len() <= 20, "tag {tag:?} exceeds 20 bytes");
    // Characters of several bytes do not make a tag longer.
    let wide = guest_mount_tag("/データ/データ/データ/データ");
    assert!(wide.len() <= 20, "tag {wide:?} exceeds 20 bytes");
}

#[test]
fn test_guest_mount_tag_slug_prefix_is_readable() {
    assert!(guest_mount_tag("/data").starts_with("data_"));
    assert!(guest_mount_tag("/var/log").starts_with("var_log_"));
}

// ------------------------------------------------------------------------------------------------
// Handoff
// ------------------------------------------------------------------------------------------------

fn with_init(cmd: &str, args: &[&str], env: &[(&str, &str)]) -> SandboxConfig {
    let mut config = test_config();
    config.spec.init = Some(HandoffInit {
        cmd: cmd.into(),
        args: args.iter().map(|a| a.to_string()).collect(),
        env: env.iter().map(|(k, v)| label(k, v)).collect(),
    });
    config
}

#[test]
fn test_handoff_init_emits_only_cmd_when_args_and_env_empty() {
    let args = render_args(&with_init("/lib/systemd/systemd", &[], &[]));
    assert_eq!(find_env(&args, "MSB_HANDOFF_INIT").as_deref(), Some("/lib/systemd/systemd"));
    assert!(find_env(&args, "MSB_HANDOFF_INIT_ARGS").is_none());
    assert!(find_env(&args, "MSB_HANDOFF_INIT_CWD").is_none());
    assert!(find_env(&args, "MSB_HANDOFF_INIT_ENV").is_none());
}

#[test]
fn test_handoff_init_emits_cwd_when_workdir_set() {
    let mut config = with_init("/init", &[], &[]);
    config.spec.runtime.workdir = Some("/opt/hermes".into());
    let args = render_args(&config);
    assert_eq!(find_env(&args, "MSB_HANDOFF_INIT_CWD").as_deref(), Some("/opt/hermes"));
}

#[test]
fn test_handoff_init_encodes_argv_as_base64url_json() {
    let argv =
        ["--unit=multi-user.target", "--log-level=warning", "literal\x1funit-separator"];
    let args = render_args(&with_init("/lib/systemd/systemd", &argv, &[]));
    let value = find_env(&args, "MSB_HANDOFF_INIT_ARGS").expect("argv env present");
    assert_eq!(decode_strings(&value), argv);
}

#[test]
fn test_handoff_init_encodes_env_pairs_as_base64url_json() {
    let env = [("container", "microsandbox"), ("LANG", "C.UTF-8"), ("TOKEN", "a=b;c\x1fd")];
    let args = render_args(&with_init("/sbin/init", &[], &env));
    let value = find_env(&args, "MSB_HANDOFF_INIT_ENV").expect("env present");
    assert_eq!(
        decode_pairs(&value),
        vec![
            label("container", "microsandbox"),
            label("LANG", "C.UTF-8"),
            label("TOKEN", "a=b;c\x1fd")
        ]
    );
}

#[test]
fn test_handoff_init_omitted_when_unset() {
    let args = render_args(&test_config());
    assert!(find_env(&args, "MSB_HANDOFF_INIT").is_none());
    assert!(find_env(&args, "MSB_HANDOFF_INIT_ARGS").is_none());
    assert!(find_env(&args, "MSB_HANDOFF_INIT_ENV").is_none());
}

#[test]
fn test_handoff_init_unit_separator_in_arg_allowed() {
    let args = render_args(&with_init("/sbin/init", &["foo\x1fbar"], &[]));
    let value = find_env(&args, "MSB_HANDOFF_INIT_ARGS").expect("argv env present");
    assert_eq!(decode_strings(&value), vec!["foo\x1fbar"]);
}

// ------------------------------------------------------------------------------------------------
// Files, directories and failures
// ------------------------------------------------------------------------------------------------

#[test]
fn files_are_staged_one_by_one() {
    let staged = ok(stage_file_mount("/host/config.txt", "/tmp/staging", 0xaabbccdd));
    assert_eq!(staged.tag, "fm_aabbccdd");
    assert_eq!(staged.dir, "/tmp/staging/fm_aabbccdd");
    assert_eq!(staged.filename, "config.txt");
    assert_eq!(
        text(stage_file_mount("/host/a:b", "/tmp/staging", 1)),
        "invalid config: file mount filename must not contain ':' or ';': a:b"
    );
    assert_eq!(
        text(stage_file_mount("/", "/tmp/staging", 1)),
        "invalid config: file mount has no filename: /"
    );
    let plain = MountOptions::default();
    let mounts = vec![
        bind_mount("/dir", "/a", plain, None),
        bind_mount("/file", "/b", plain, None),
        tmpfs("/t", None, plain),
    ];
    assert_eq!(file_bind_mounts(&mounts, &vec![false, true, true]), vec![1]);
    assert_eq!(after_link(Ok(()), None), Staging::Linked);
    let across = IoError { kind: IoErrorKind::Other, raw: Some(EXDEV) };
    assert_eq!(after_link(Err(across), Some(EXDEV)), Staging::Copy);
    assert_eq!(after_link(Err(across), None), Staging::Failed(across));
}

#[test]
fn payloads_that_hold_no_list_do_not_decode() {
    assert_eq!(decode_handoff_args("!"), None);
    assert_eq!(decode_handoff_args(&URL_SAFE_NO_PAD.encode("{}")), None);
    assert_eq!(decode_handoff_args(&URL_SAFE_NO_PAD.encode("[\"a\"]")), Some(vec!["a".into()]));
}

#[test]
fn staged_files_are_found_by_guest_path() {
    let mounts = vec![
        bind_mount("/host/a.txt", "/a", MountOptions::default(), None),
        bind_mount("/host/dir", "/dir", MountOptions::default(), None),
        bind_mount("/host/b.txt", "/b", MountOptions::default(), None),
        bind_mount("/host/c.txt", "/a", MountOptions::default(), None),
    ];
    let is_file = vec![true, false, true, true];
    let ids = vec![1, 2, 3, 4];
    let staged = ok(stage_file_mounts(&mounts, &is_file, &ids, "/tmp/staging", false));
    assert!(staged.get("/dir").is_none());
    let b = staged.get("/b").unwrap();
    assert_eq!((b.filename.as_str(), b.tag.as_str()), ("b.txt", "fm_00000003"));
    assert_eq!(b.dir, "/tmp/staging/fm_00000003");
    assert_eq!(staged.get("/a").unwrap().filename, "c.txt");

    let odd = vec![
        bind_mount("/host/a:b", "/a", MountOptions::default(), None),
        bind_mount("/", "/b", MountOptions::default(), None),
    ];
    let stage = |is_file: Vec<bool>| {
        text(stage_file_mounts(&odd, &is_file, &vec![1, 2], "/tmp/staging", false))
    };
    assert_eq!(
        stage(vec![true, true]),
        "invalid config: file mount filename must not contain ':' or ';': a:b"
    );
    assert_eq!(stage(vec![false, true]), "invalid config: file mount has no filename: /");
    assert!(stage_file_mounts(&odd, &vec![false, false], &vec![1, 2], "/t", true).is_ok());
}

#[test]
fn files_are_staged_on_windows() {
    let root = "C:\\tmp\\staging";
    let staged = ok(windows_stage_file_mount("C:\\data\\a.txt", root, 0xaabbccdd));
    assert_eq!(staged.filename, "a.txt");
    assert_eq!(staged.tag, "fm_aabbccdd");
    assert_eq!(staged.dir, "C:\\tmp\\staging\\fm_aabbccdd");
    assert_eq!(
        text(windows_stage_file_mount("C:\\data\\a;b", root, 1)),
        "invalid config: file mount filename must not contain ':' or ';': a;b"
    );
    assert_eq!(
        text(windows_stage_file_mount("C:", root, 1)),
        "invalid config: file mount has no filename: C:"
    );
}

#[test]
fn networks_travel_on_the_private_channel() {
    let network = "{\"secrets\":[\"token\"]}";
    let (visible, payload) =
        launch_payload(&test_config(), &context(), Some(network.to_string()));
    let (same, launch) = sandbox_cli_args(&test_config(), &context());
    assert_eq!(visible, same);
    assert_eq!(payload.launch.env, launch.env);
    assert_eq!(payload.network.as_deref(), Some(network));
    assert!(!visible.iter().any(|arg| arg.contains("token")));
    assert!(launch_payload(&test_config(), &context(), None).1.network.is_none());
}

#[test]
fn sandboxes_have_their_directories() {
    let dirs = sandbox_dirs("/s", "worker", "/home/msb", "db", "msb.db", false);
    assert_eq!(dirs.sandbox_dir, "/s/worker");
    assert_eq!(dirs.log_dir, "/s/worker/logs");
    assert_eq!(dirs.runtime_dir, "/s/worker/runtime");
    assert_eq!(dirs.scripts_dir, "/s/worker/runtime/scripts");
    assert_eq!(dirs.db_path, "/home/msb/db/msb.db");
    let dirs = sandbox_dirs("C:\\s", "worker", "C:\\home", "db", "msb.db", true);
    assert_eq!(dirs.scripts_dir, "C:\\s\\worker\\runtime\\scripts");
    assert_eq!(dirs.db_path, "C:\\home\\db\\msb.db");
    assert_eq!(ok(script_path("/scripts", "setup")), "/scripts/setup");
    assert_eq!(ok(script_path("/scripts", "../escape")), "/scripts/escape");
    assert_eq!(text(script_path("/scripts", "..")), "invalid config: invalid script name: ..");
    assert_eq!(ok(windows_script_path("C:\\s", "..\\x")), "C:\\s\\x");
    assert_eq!(ok(windows_script_path("C:\\s", "D:/x/y.sh")), "C:\\s\\y.sh");
    assert_eq!(
        text(windows_script_path("C:\\s", "x\\..")),
        "invalid config: invalid script name: x\\.."
    );
    assert_eq!(memory_limit_bytes(3), 3 * 1024 * 1024);
}

#[test]
fn managed_uppers_are_grown() {
    let image = |size_mib| {
        RootfsSource::Oci(OciRootfsSource {
            reference: "alpine".into(),
            root_disk: Some(RootDisk::Managed { size_mib }),
        })
    };
    assert_eq!(prepare_oci_upper(&image(Some(64)), true), Some(64));
    assert_eq!(prepare_oci_upper(&image(Some(64)), false), None);
    assert_eq!(prepare_oci_upper(&image(None), true), None);
}

#[test]
fn configurations_travel_by_descriptor_or_file() {
    let mut visible = vec!["sandbox".to_string()];
    push_config_channel(&mut visible, ConfigChannel::Descriptor(96));
    push_config_channel(&mut visible, ConfigChannel::File("/c".into()));
    assert_eq!(visible, vec!["sandbox", "--config-fd", "96", "--config-file", "/c"]);
}

#[test]
fn only_attached_processes_report_over_stdout() {
    let (out, _) = stdio_targets(SpawnMode::Attached);
    assert_eq!(out, StdioTarget::Piped);
    let (out, _) = stdio_targets(SpawnMode::Detached);
    assert_eq!(out, StdioTarget::Null);
    assert_eq!(
        windows_stdio_targets(SpawnMode::Attached),
        (StdioTarget::Piped, StdioTarget::RuntimeLog)
    );
    assert_eq!(
        windows_stdio_targets(SpawnMode::Detached),
        (StdioTarget::Null, StdioTarget::RuntimeLog)
    );
}

#[test]
fn failed_spawns_say_why() {
    assert_eq!(
        SpawnFailure::StartupTimeout.into_error().message(),
        "sandbox startup timeout: no JSON received within 30 seconds"
    );
    assert_eq!(
        SpawnFailure::ExitedImmediately.into_error().message(),
        "sandbox process exited immediately"
    );
    assert_eq!(
        SpawnFailure::PidMismatch { spawned: 1, reported: 2, status: "killed".into() }
            .into_error()
            .message(),
        "sandbox startup PID mismatch: spawned pid 1, startup pid 2 (status: killed)"
    );
    assert_eq!(
        SpawnFailure::JobCreation("denied".into()).into_error().message(),
        "failed to create Windows sandbox job: denied"
    );
    assert_eq!(
        SpawnFailure::JobAssignment { status: "killed".into(), cause: "denied".into() }
            .into_error()
            .message(),
        "failed to assign sandbox process to Windows job (status: killed): denied"
    );
    assert!(matches!(
        SpawnFailure::Host("io".into()).into_error(),
        MicrosandboxError::Host(m) if m == "io"
    ));
}

fn spawn(plan: SpawnPlan, events: &[SpawnEvent]) -> SpawnStep {
    let mut step = SpawnStep::first();
    for _ in 0..11 {
        if let SpawnStep::Prepare(_) = step {
            step = step.advance(SpawnEvent::Done, plan);
        }
    }
    for event in events {
        step = step.advance(*event, plan);
    }
    step
}

#[test]
fn spawns_prepare_the_host_first() {
    let plan = SpawnPlan { mode: SpawnMode::Attached, samples_metrics: true, windows: false };
    let mut step = SpawnStep::first();
    let mut seen = Vec::new();
    while let SpawnStep::Prepare(preparation) = step {
        seen.push(preparation);
        assert_eq!(step.advance(SpawnEvent::Failed, plan), SpawnStep::Failed);
        step = step.advance(SpawnEvent::Done, plan);
    }
    assert_eq!(
        seen,
        vec![
            Preparation::Secrets,
            Preparation::Binaries,
            Preparation::Directories,
            Preparation::Upper,
            Preparation::Scripts,
            Preparation::Socket,
            Preparation::Files,
            Preparation::Volumes,
            Preparation::Disks,
        ]
    );
    assert_eq!(step, SpawnStep::ReserveMetrics);
    let windows = SpawnPlan { windows: true, ..plan };
    assert_eq!(Preparation::Socket.following(windows.windows), Some(Preparation::Pipe));
    assert_eq!(Preparation::Binaries.following(windows.windows), Some(Preparation::Prerequisites));
    assert_eq!(Preparation::Prerequisites.following(true), Some(Preparation::Directories));
}

#[test]
fn failed_spawns_give_their_slot_back() {
    let plan = SpawnPlan { mode: SpawnMode::Detached, samples_metrics: true, windows: false };
    let reserved = SpawnEvent::Reserved(true);
    let done = SpawnEvent::Done;
    assert_eq!(spawn(plan, &[reserved]), SpawnStep::OpenStartupPipe { reserved: true });
    assert_eq!(spawn(plan, &[reserved, SpawnEvent::Failed]), SpawnStep::ReleaseMetrics);
    assert_eq!(spawn(plan, &[reserved, done, SpawnEvent::Failed]), SpawnStep::ReleaseMetrics);
    let started = [reserved, done, done, done, SpawnEvent::Spawned(Some(7))];
    let reading = spawn(plan, &started);
    assert_eq!(reading, SpawnStep::ReadStartup { reserved: true, pid: 7 });
    let timed_out = reading.advance(SpawnEvent::TimedOut, plan);
    assert_eq!(
        timed_out,
        SpawnStep::Terminate { reserved: true, pid: 7, why: GiveUp::Timeout }
    );
    let released = timed_out.advance(SpawnEvent::Terminated, plan);
    assert_eq!(released, SpawnStep::ReleaseMetrics);
    assert_eq!(released.advance(done, plan), SpawnStep::Failed);
}

#[test]
fn started_processes_report_their_own_pid() {
    let plan = SpawnPlan { mode: SpawnMode::Attached, samples_metrics: false, windows: false };
    let done = SpawnEvent::Done;
    let reading = spawn(plan, &[done, done, done, SpawnEvent::Spawned(Some(7))]);
    assert_eq!(reading, SpawnStep::ReadStartup { reserved: false, pid: 7 });
    assert_eq!(
        reading.advance(SpawnEvent::Reported(Some(7)), plan),
        SpawnStep::Started { pid: 7 }
    );
    assert_eq!(
        reading.advance(SpawnEvent::Reported(Some(8)), plan),
        SpawnStep::Terminate {
            reserved: false,
            pid: 7,
            why: GiveUp::PidMismatch { reported: 8 }
        }
    );
    assert_eq!(
        reading.advance(SpawnEvent::Reported(None), plan),
        SpawnStep::Terminate { reserved: false, pid: 7, why: GiveUp::NoStartupInfo }
    );
    let gone = spawn(plan, &[done, done, done, SpawnEvent::Spawned(None)]);
    assert_eq!(gone, SpawnStep::Failed);
}
