//! Sandboxes in the cloud.

use microsandbox::cloud::{
    cloud_create_request_from_config, cloud_status_to_sandbox_status, refuse_operation,
    reject_cloud_deferred, sandbox_config_from_cloud, unsupported, unsupported_exec,
    unsupported_fs, unsupported_metrics, CloudCreateSandboxRequest, CloudOperation, CloudSandbox,
    CloudSandboxStatus,
};
use microsandbox::error::MicrosandboxError;
use microsandbox::listing::{SandboxHandle, SandboxHandleInner};
use microsandbox::namemap::NameMap;
use microsandbox::types::{
    DiskImageFormat, EnvVar, HandoffInit, MountOptions, OciRootfsSource, PublishedPortSpec,
    PullPolicy, RegistryAuth, Rlimit, RlimitResource, RootfsSource, SandboxConfig,
    SandboxLogLevel, SandboxResources, SandboxSpec, SandboxStatus, SecurityProfile, VolumeMount,
};

fn resources(cpus: u8, memory_mib: u32) -> SandboxResources {
    SandboxResources { cpus, memory_mib, max_cpus: cpus, max_memory_mib: memory_mib }
}

fn with_image(image: RootfsSource) -> SandboxConfig {
    SandboxConfig::new(SandboxSpec::new("agent-1".into(), image, resources(1, 512)))
}

/// A minimal configuration that the cloud accepts.
fn base_cloud_config() -> SandboxConfig {
    with_image(RootfsSource::Oci(OciRootfsSource {
        reference: "python:3.12".into(),
        root_disk: None,
    }))
}

fn refusal(config: SandboxConfig) -> (String, String) {
    match cloud_create_request_from_config(config) {
        Err(MicrosandboxError::Unsupported { feature, available_when }) => {
            (feature, available_when)
        }
        Err(other) => panic!("{}", other.message()),
        Ok(_) => panic!("accepted"),
    }
}

fn refused(config: SandboxConfig, feature: &str, available_when: &str) {
    assert_eq!(refusal(config), (feature.to_string(), available_when.to_string()));
}

fn name_map(pairs: &[(&str, &str)]) -> NameMap<String> {
    let mut map = NameMap::new();
    for (key, value) in pairs {
        map = map.with(key.to_string(), value.to_string());
    }
    map
}

fn empty_request(name: &str, image: &str) -> CloudCreateSandboxRequest {
    CloudCreateSandboxRequest {
        name: name.into(),
        image: image.into(),
        vcpus: 1,
        memory_mib: 512,
        env: NameMap::new(),
        ephemeral: false,
        workdir: None,
        shell: None,
        entrypoint: None,
        hostname: None,
        user: None,
        log_level: None,
        scripts: NameMap::new(),
        max_duration_secs: None,
        idle_timeout_secs: None,
    }
}

fn cloud_sandbox(config: CloudCreateSandboxRequest) -> CloudSandbox {
    CloudSandbox {
        id: "00000000-0000-0000-0000-000000000002".into(),
        org_id: "00000000-0000-0000-0000-000000000001".into(),
        name: "agent-1".into(),
        status: CloudSandboxStatus::Running,
        config,
        ephemeral: true,
        created_at: 1_700_000_000_000_000,
        started_at: None,
        stopped_at: None,
        last_error: None,
    }
}

#[test]
fn cloud_create_request_maps_common_fields() {
    let mut config = SandboxConfig::new(SandboxSpec::new(
        "agent-1".into(),
        RootfsSource::Oci(OciRootfsSource { reference: "python:3.12".into(), root_disk: None }),
        resources(2, 1024),
    ));
    config.spec.env.push(EnvVar { key: "A".into(), value: "B".into() });
    config.spec.runtime.workdir = Some("/app".into());
    config.spec.runtime.shell = Some("/bin/bash".into());
    config.spec.runtime.entrypoint = Some(vec!["python".into(), "-u".into()]);

    let req = cloud_create_request_from_config(config).ok().unwrap();

    assert_eq!(req.name, "agent-1");
    assert_eq!(req.image, "python:3.12");
    assert_eq!(req.vcpus, 2);
    assert_eq!(req.memory_mib, 1024);
    assert_eq!(req.env.get("A").unwrap(), "B");
    assert_eq!(req.workdir.as_deref(), Some("/app"));
    assert_eq!(req.shell.as_deref(), Some("/bin/bash"));
    assert_eq!(req.entrypoint, Some(vec!["python".to_string(), "-u".to_string()]));
}

#[test]
fn cloud_create_request_rejects_disk_image_rootfs() {
    let config = with_image(RootfsSource::DiskImage {
        path: "rootfs.img".into(),
        format: DiskImageFormat::Raw,
        fstype: None,
    });
    refused(config, "disk-image rootfs", "never on cloud");
}

#[test]
fn cloud_create_request_rejects_replace_existing() {
    let mut config = base_cloud_config();
    config.replace_existing = true;
    refused(config, ".replace()", "when cloud sandbox replace semantics land");
}

#[test]
fn cloud_create_request_rejects_init() {
    let mut config = base_cloud_config();
    config.spec.init = Some(HandoffInit {
        cmd: "/sbin/init".into(),
        args: Vec::new(),
        env: Vec::new(),
    });
    refused(config, "init", "when cloud init wrapper lands");
}

#[test]
fn cloud_create_request_rejects_non_default_pull_policy() {
    let mut config = base_cloud_config();
    config.spec.pull_policy = PullPolicy::Always;
    refused(config, "pull_policy", "when cloud pull policy lands");
}

#[test]
fn cloud_create_request_rejects_registry_auth() {
    let mut config = base_cloud_config();
    config.registry_auth =
        Some(RegistryAuth::Basic { username: "u".into(), password: "p".into() });
    refused(config, "registry_auth", "when cloud registry auth lands");
}

#[test]
fn cloud_create_request_rejects_insecure() {
    let mut config = base_cloud_config();
    config.insecure = true;
    refused(config, "insecure registries", "when cloud insecure-registry support lands");
}

#[test]
fn cloud_create_request_rejects_ca_certs() {
    let mut config = base_cloud_config();
    config
        .ca_certs
        .push(b"-----BEGIN CERTIFICATE-----\nfake\n-----END CERTIFICATE-----".to_vec());
    refused(config, "ca_certs", "when cloud custom CA certs land");
}

#[test]
fn cloud_create_request_rejects_published_ports() {
    let mut config = base_cloud_config();
    config.spec.network.ports.push(PublishedPortSpec {
        host_port: 8080,
        guest_port: 80,
        udp: false,
        host_bind: "127.0.0.1".into(),
    });
    refused(config, "network policy / ports / secrets", "when cloud networking ships");
}

#[test]
fn cloud_create_request_rejects_the_rest_of_the_network() {
    for field in 0..3 {
        let mut config = base_cloud_config();
        match field {
            0 => config.spec.network.secrets.push("token".into()),
            1 => config.spec.network.nameservers.push("1.1.1.1".into()),
            _ => config.spec.network.trust_host_cas = true,
        }
        refused(config, "network policy / ports / secrets", "when cloud networking ships");
    }
}

#[test]
fn cloud_create_request_rejects_mounts_patches_rlimits_cmd_and_host_dirs() {
    let mut config = base_cloud_config();
    config.spec.mounts.push(VolumeMount::Tmpfs {
        guest: "/tmp".into(),
        size_mib: None,
        options: MountOptions::default(),
    });
    // Mounts are refused before anything else.
    config.replace_existing = true;
    refused(config, "mounts", "when cloud volumes ship");

    let mut config = base_cloud_config();
    config.spec.patches.push("p".into());
    refused(config, "patches", "when cloud volumes ship");

    let mut config = base_cloud_config();
    config.spec.rlimits.push(Rlimit { resource: RlimitResource::Nofile, soft: 1, hard: 2 });
    refused(config, "rlimits", "when rlimits land on the cloud API");

    let mut config = base_cloud_config();
    config.spec.runtime.cmd = Some(vec!["ls".into()]);
    refused(config, "cmd", "when cmd lands on the cloud API");

    let config = with_image(RootfsSource::Bind { path: "/srv/root".into() });
    refused(config, "image-from-host-dir", "when cloud volumes ship");
}

#[test]
fn the_last_value_of_a_variable_counts() {
    let mut config = base_cloud_config();
    config.spec.env.push(EnvVar { key: "A".into(), value: "1".into() });
    config.spec.env.push(EnvVar { key: "B".into(), value: "2".into() });
    config.spec.env.push(EnvVar { key: "A".into(), value: "3".into() });
    let req = cloud_create_request_from_config(config).ok().unwrap();
    assert_eq!(req.env.get("A").unwrap(), "3");
    assert_eq!(req.env.get("B").unwrap(), "2");
    assert!(req.env.get("C").is_none());
}

#[test]
fn sandbox_config_from_cloud_round_trips_d13_fields() {
    let cloud = cloud_sandbox(CloudCreateSandboxRequest {
        name: "agent-1".into(),
        image: "python:3.12".into(),
        vcpus: 4,
        memory_mib: 2048,
        env: name_map(&[("A", "B")]),
        ephemeral: true,
        workdir: Some("/app".into()),
        shell: Some("/bin/bash".into()),
        entrypoint: Some(vec!["python".into(), "-u".into()]),
        hostname: Some("worker".into()),
        user: Some("appuser".into()),
        log_level: Some("debug".into()),
        scripts: name_map(&[("setup", "echo hi")]),
        max_duration_secs: Some(3600),
        idle_timeout_secs: Some(600),
    });

    let config = sandbox_config_from_cloud(&cloud);

    assert_eq!(config.spec.name, "agent-1");
    assert!(matches!(config.spec.image, RootfsSource::Oci(ref s) if s.reference == "python:3.12"));
    assert_eq!(config.spec.resources.cpus, 4);
    assert_eq!(config.spec.resources.memory_mib, 2048);
    assert_eq!(config.spec.env.len(), 1);
    assert_eq!(config.spec.env[0].key, "A");
    assert_eq!(config.spec.env[0].value, "B");
    assert_eq!(config.spec.runtime.workdir.as_deref(), Some("/app"));
    assert_eq!(config.spec.runtime.shell.as_deref(), Some("/bin/bash"));
    assert_eq!(
        config.spec.runtime.entrypoint,
        Some(vec!["python".to_string(), "-u".to_string()])
    );
    assert_eq!(config.spec.runtime.hostname.as_deref(), Some("worker"));
    assert_eq!(config.spec.runtime.user.as_deref(), Some("appuser"));
    assert_eq!(config.spec.runtime.log_level, Some(SandboxLogLevel::Debug));
    assert_eq!(
        config.spec.runtime.scripts,
        vec![("setup".to_string(), "echo hi".to_string())]
    );
    assert_eq!(config.spec.lifecycle.max_duration_secs, Some(3600));
    assert_eq!(config.spec.lifecycle.idle_timeout_secs, Some(600));
    assert!(config.spec.lifecycle.ephemeral);

    // What came back can be asked for again, and is the same request.
    let again = cloud_create_request_from_config(config).ok().unwrap();
    assert_eq!(again.name, "agent-1");
    assert_eq!(again.image, "python:3.12");
    assert_eq!(again.vcpus, 4);
    assert_eq!(again.env.get("A").unwrap(), "B");
    assert_eq!(again.scripts.get("setup").unwrap(), "echo hi");
    assert_eq!(again.log_level.as_deref(), Some("debug"));
    assert_eq!(again.hostname.as_deref(), Some("worker"));
    assert_eq!(again.user.as_deref(), Some("appuser"));
    assert!(again.ephemeral);
}

#[test]
fn sandbox_config_from_cloud_drops_unknown_log_level() {
    let mut request = empty_request("agent-1", "python:3.12");
    request.log_level = Some("verbose".into());
    let config = sandbox_config_from_cloud(&cloud_sandbox(request));
    assert!(config.spec.runtime.log_level.is_none(), "unknown log_level should map to None");
    assert_eq!(config.spec.security_profile, SecurityProfile::Default);
    assert_eq!(config.spec.deployment_profile, None);
    assert_eq!(config.spec.runtime.metrics_sample_interval_ms, None);
}

#[test]
fn cloud_status_maps_created_and_starting_one_to_one() {
    assert_eq!(
        cloud_status_to_sandbox_status(CloudSandboxStatus::Created),
        SandboxStatus::Created,
    );
    assert_eq!(
        cloud_status_to_sandbox_status(CloudSandboxStatus::Starting),
        SandboxStatus::Starting,
    );
    assert_eq!(
        cloud_status_to_sandbox_status(CloudSandboxStatus::Running),
        SandboxStatus::Running,
    );
    assert_eq!(
        cloud_status_to_sandbox_status(CloudSandboxStatus::Stopping),
        SandboxStatus::Draining,
    );
    assert_eq!(
        cloud_status_to_sandbox_status(CloudSandboxStatus::Stopped),
        SandboxStatus::Stopped,
    );
    assert_eq!(
        cloud_status_to_sandbox_status(CloudSandboxStatus::Failed),
        SandboxStatus::Crashed,
    );
}

#[test]
fn refused_operations_say_when_they_come() {
    let text = |e: MicrosandboxError| match e {
        MicrosandboxError::Unsupported { feature, available_when } => (feature, available_when),
        _ => panic!("not a refusal"),
    };
    let pair = |a: &str, b: &str| (a.to_string(), b.to_string());
    assert_eq!(
        text(refuse_operation(CloudOperation::Kill)),
        pair("cloud sandbox kill", "when cloud forced-stop lands")
    );
    assert_eq!(
        text(refuse_operation(CloudOperation::Drain)),
        pair("cloud sandbox drain", "when cloud graceful-drain lands")
    );
    assert_eq!(
        text(refuse_operation(CloudOperation::ExecStream)),
        pair("Sandbox::exec_stream", "when cloud exec lands")
    );
    assert_eq!(
        text(refuse_operation(CloudOperation::Metrics)),
        pair("Sandbox::metrics", "when cloud metrics land")
    );
    assert_eq!(
        text(refuse_operation(CloudOperation::FsCopyToHost)),
        pair("SandboxFsOps::copy_to_host", "when cloud guest fs lands")
    );
    assert_eq!(text(unsupported("a", "b")), pair("a", "b"));
    assert_eq!(text(unsupported_exec("x")), pair("x", "when cloud exec lands"));
    assert_eq!(text(unsupported_fs("x")), pair("x", "when cloud guest fs lands"));
    assert_eq!(text(unsupported_metrics("x")), pair("x", "when cloud metrics land"));
    assert!(reject_cloud_deferred(false, "a", "b").is_ok());
    assert_eq!(text(reject_cloud_deferred(true, "a", "b").unwrap_err()), pair("a", "b"));
}

#[test]
fn handles_of_cloud_sandboxes_show_their_status() {
    let mut cloud = cloud_sandbox(empty_request("agent-1", "alpine"));
    cloud.status = CloudSandboxStatus::Stopping;
    cloud.last_error = Some("oom".into());
    let handle = SandboxHandle::from_cloud(cloud, "{}".into());
    assert_eq!(handle.name, "agent-1");
    match handle.inner {
        SandboxHandleInner::Cloud(state) => {
            assert_eq!(state.status, SandboxStatus::Draining);
            assert_eq!(state.id, "00000000-0000-0000-0000-000000000002");
            assert_eq!(state.org_id, "00000000-0000-0000-0000-000000000001");
            assert_eq!(state.config_json, "{}");
            assert_eq!(state.created_at, Some(1_700_000_000_000_000));
            assert_eq!(state.last_error.as_deref(), Some("oom"));
        }
        SandboxHandleInner::Local(_) => panic!("local"),
    }
}
