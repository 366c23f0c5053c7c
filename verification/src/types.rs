//! What a sandbox is made of: its image, resources, mounts and lifecycle.

use vstd::prelude::*;

use crate::text::same;

verus! {

/// Lifecycle state of a sandbox.
#[derive(Clone, Copy, Debug, PartialEq, Eq, Structural)]
pub enum SandboxStatus {
    Created,
    Starting,
    Running,
    Draining,
    Paused,
    Stopped,
    Crashed,
}

impl SandboxStatus {
    /// The name of the state.
    pub open spec fn text(self) -> Seq<char> {
        match self {
            SandboxStatus::Created => "Created"@,
            SandboxStatus::Starting => "Starting"@,
            SandboxStatus::Running => "Running"@,
            SandboxStatus::Draining => "Draining"@,
            SandboxStatus::Paused => "Paused"@,
            SandboxStatus::Stopped => "Stopped"@,
            SandboxStatus::Crashed => "Crashed"@,
        }
    }

    /// The name of the state.
    pub fn as_str(self) -> (r: &'static str)
        ensures
            r@ == self.text(),
    {
        match self {
            SandboxStatus::Created => "Created",
            SandboxStatus::Starting => "Starting",
            SandboxStatus::Running => "Running",
            SandboxStatus::Draining => "Draining",
            SandboxStatus::Paused => "Paused",
            SandboxStatus::Stopped => "Stopped",
            SandboxStatus::Crashed => "Crashed",
        }
    }
}

/// When an image is fetched from its registry.
#[derive(Clone, Copy, Debug, PartialEq, Eq, Structural)]
pub enum PullPolicy {
    /// Only when it is not cached.
    IfMissing,
    /// On every create.
    Always,
    /// Not at all.
    Never,
}

/// Verbosity of the sandbox process.
#[derive(Clone, Copy, Debug, PartialEq, Eq, Structural)]
pub enum SandboxLogLevel {
    Error,
    Warn,
    Info,
    Debug,
    Trace,
}

impl SandboxLogLevel {
    /// The level in words.
    pub open spec fn text(self) -> Seq<char> {
        match self {
            SandboxLogLevel::Error => "error"@,
            SandboxLogLevel::Warn => "warn"@,
            SandboxLogLevel::Info => "info"@,
            SandboxLogLevel::Debug => "debug"@,
            SandboxLogLevel::Trace => "trace"@,
        }
    }

    /// The level in words.
    pub fn as_str(self) -> (r: &'static str)
        ensures
            r@ == self.text(),
    {
        match self {
            SandboxLogLevel::Error => "error",
            SandboxLogLevel::Warn => "warn",
            SandboxLogLevel::Info => "info",
            SandboxLogLevel::Debug => "debug",
            SandboxLogLevel::Trace => "trace",
        }
    }

    /// The level that the words name.
    pub fn parse(s: &str) -> (r: Option<SandboxLogLevel>)
        ensures
            r == log_level_of(s@),
    {
        if same(s, "error") {
            Some(SandboxLogLevel::Error)
        } else if same(s, "warn") {
            Some(SandboxLogLevel::Warn)
        } else if same(s, "info") {
            Some(SandboxLogLevel::Info)
        } else if same(s, "debug") {
            Some(SandboxLogLevel::Debug)
        } else if same(s, "trace") {
            Some(SandboxLogLevel::Trace)
        } else {
            None
        }
    }
}

/// The level that the words name.
pub open spec fn log_level_of(s: Seq<char>) -> Option<SandboxLogLevel> {
    if s == "error"@ {
        Some(SandboxLogLevel::Error)
    } else if s == "warn"@ {
        Some(SandboxLogLevel::Warn)
    } else if s == "info"@ {
        Some(SandboxLogLevel::Info)
    } else if s == "debug"@ {
        Some(SandboxLogLevel::Debug)
    } else if s == "trace"@ {
        Some(SandboxLogLevel::Trace)
    } else {
        None
    }
}

/// How strictly the guest is confined.
#[derive(Clone, Copy, Debug, PartialEq, Eq, Structural)]
pub enum SecurityProfile {
    Default,
    Restricted,
}

/// Format of a disk image.
#[derive(Clone, Copy, Debug, PartialEq, Eq, Structural)]
pub enum DiskImageFormat {
    Raw,
    Qcow2,
    Vmdk,
}

impl DiskImageFormat {
    /// The format in words.
    pub open spec fn text(self) -> Seq<char> {
        match self {
            DiskImageFormat::Raw => "raw"@,
            DiskImageFormat::Qcow2 => "qcow2"@,
            DiskImageFormat::Vmdk => "vmdk"@,
        }
    }

    /// The format in words.
    pub fn as_str(self) -> (r: &'static str)
        ensures
            r@ == self.text(),
    {
        match self {
            DiskImageFormat::Raw => "raw",
            DiskImageFormat::Qcow2 => "qcow2",
            DiskImageFormat::Vmdk => "vmdk",
        }
    }

    /// The format that the words name.
    pub fn parse(s: &str) -> (r: Option<DiskImageFormat>)
        ensures
            r == disk_format_of(s@),
    {
        if same(s, "raw") {
            Some(DiskImageFormat::Raw)
        } else if same(s, "qcow2") {
            Some(DiskImageFormat::Qcow2)
        } else if same(s, "vmdk") {
            Some(DiskImageFormat::Vmdk)
        } else {
            None
        }
    }
}

/// The disk image format that the words name.
pub open spec fn disk_format_of(s: Seq<char>) -> Option<DiskImageFormat> {
    if s == "raw"@ {
        Some(DiskImageFormat::Raw)
    } else if s == "qcow2"@ {
        Some(DiskImageFormat::Qcow2)
    } else if s == "vmdk"@ {
        Some(DiskImageFormat::Vmdk)
    } else {
        None
    }
}

/// How file metadata of a shared directory is presented to the guest.
#[derive(Clone, Copy, Debug, PartialEq, Eq, Structural)]
pub enum StatVirtualization {
    Strict,
    Relaxed,
    Off,
}

/// Whether guest permission changes reach the host.
#[derive(Clone, Copy, Debug, PartialEq, Eq, Structural)]
pub enum HostPermissions {
    Private,
    Mirror,
}

/// Options of a guest mount.
#[derive(Clone, Copy, Debug, PartialEq, Eq, Structural)]
pub struct MountOptions {
    pub readonly: bool,
    pub noexec: bool,
    pub nosuid: bool,
    pub nodev: bool,
}

impl Default for MountOptions {
    fn default() -> (r: Self)
        ensures
            !r.readonly && !r.noexec && !r.nosuid && !r.nodev,
    {
        MountOptions { readonly: false, noexec: false, nosuid: false, nodev: false }
    }
}

/// How a named volume stores its files.
#[derive(Clone, Copy, Debug, PartialEq, Eq, Structural)]
pub enum VolumeKind {
    Directory,
    Disk,
}

impl VolumeKind {
    /// The kind as the catalog stores it.
    pub open spec fn text(self) -> Seq<char> {
        match self {
            VolumeKind::Directory => "dir"@,
            VolumeKind::Disk => "disk"@,
        }
    }

    /// The kind as the catalog stores it.
    pub fn as_str(self) -> (r: &'static str)
        ensures
            r@ == self.text(),
    {
        match self {
            VolumeKind::Directory => "dir",
            VolumeKind::Disk => "disk",
        }
    }

    /// The kind that the catalog stored; everything but a disk is a directory.
    pub fn from_db_value(s: &str) -> (r: VolumeKind)
        ensures
            r == stored_kind(s@),
    {
        if same(s, "disk") {
            VolumeKind::Disk
        } else {
            VolumeKind::Directory
        }
    }
}

/// The kind that the catalog stored.
pub open spec fn stored_kind(s: Seq<char>) -> VolumeKind {
    if s == "disk"@ {
        VolumeKind::Disk
    } else {
        VolumeKind::Directory
    }
}

/// What a mount asks of its named volume.
#[derive(Clone, Copy, Debug, PartialEq, Eq, Structural)]
pub enum NamedVolumeMode {
    /// It must not exist yet.
    Create,
    /// It is created unless it exists.
    EnsureExists,
    /// It must exist already.
    Existing,
}

/// A named volume as a mount asks for it.
#[derive(Clone)]
pub struct NamedVolumeCreate {
    pub mode: NamedVolumeMode,
    pub name: String,
    pub kind: VolumeKind,
    pub quota_mib: Option<u32>,
    pub capacity_mib: Option<u32>,
    pub labels: Vec<(String, String)>,
}

/// One mount of a sandbox.
#[derive(Clone)]
pub enum VolumeMount {
    /// A host file or directory.
    Bind {
        host: String,
        guest: String,
        options: MountOptions,
        stat_virtualization: StatVirtualization,
        host_permissions: HostPermissions,
        quota_mib: Option<u32>,
    },
    /// A named volume.
    Named {
        name: String,
        guest: String,
        create: Option<NamedVolumeCreate>,
        options: MountOptions,
        stat_virtualization: StatVirtualization,
        host_permissions: HostPermissions,
    },
    /// Guest memory.
    Tmpfs { guest: String, size_mib: Option<u32>, options: MountOptions },
    /// A disk image on the host.
    DiskImage {
        host: String,
        guest: String,
        format: DiskImageFormat,
        fstype: Option<String>,
        options: MountOptions,
    },
}

/// How the flat disk of an image is copied.
#[derive(Clone)]
pub enum FlatClone {
    /// As the host sees fit.
    Auto,
    /// In the way with the given name.
    Named(String),
}

impl FlatClone {
    /// The same choice.
    pub fn copied(&self) -> (r: FlatClone)
        ensures
            r == *self,
    {
        match self {
            FlatClone::Auto => FlatClone::Auto,
            FlatClone::Named(name) => FlatClone::Named(name.clone()),
        }
    }
}

/// The writable disk of a sandbox that boots an OCI image.
#[derive(Clone)]
pub enum RootDisk {
    /// A disk of its own, layered over the image.
    Managed { size_mib: Option<u32> },
    /// Guest memory, layered over the image.
    Tmpfs { size_mib: Option<u32> },
    /// A disk image that the user owns, layered over the image.
    DiskImage { path: String },
    /// One disk that holds the whole root filesystem.
    Flat { size_mib: Option<u32>, clone: FlatClone, fstype: Option<String> },
}

/// An OCI image to boot.
#[derive(Clone)]
pub struct OciRootfsSource {
    pub reference: String,
    pub root_disk: Option<RootDisk>,
}

/// Where the root filesystem comes from.
#[derive(Clone)]
pub enum RootfsSource {
    /// A directory on the host.
    Bind { path: String },
    /// An OCI image.
    Oci(OciRootfsSource),
    /// A disk image on the host.
    DiskImage { path: String, format: DiskImageFormat, fstype: Option<String> },
}

/// Processors and memory.
#[derive(Clone, Copy, Debug, PartialEq, Eq, Structural)]
pub struct SandboxResources {
    pub cpus: u8,
    pub memory_mib: u32,
    pub max_cpus: u8,
    pub max_memory_mib: u32,
}

/// A resource that a limit applies to.
#[derive(Clone, Copy, Debug, PartialEq, Eq, Structural)]
pub enum RlimitResource {
    Cpu,
    Fsize,
    Data,
    Stack,
    Core,
    Rss,
    Nproc,
    Nofile,
    Memlock,
    As,
    Locks,
    Sigpending,
    Msgqueue,
    Nice,
    Rtprio,
    Rttime,
}

impl RlimitResource {
    /// The resource in words.
    pub open spec fn text(self) -> Seq<char> {
        match self {
            RlimitResource::Cpu => "cpu"@,
            RlimitResource::Fsize => "fsize"@,
            RlimitResource::Data => "data"@,
            RlimitResource::Stack => "stack"@,
            RlimitResource::Core => "core"@,
            RlimitResource::Rss => "rss"@,
            RlimitResource::Nproc => "nproc"@,
            RlimitResource::Nofile => "nofile"@,
            RlimitResource::Memlock => "memlock"@,
            RlimitResource::As => "as"@,
            RlimitResource::Locks => "locks"@,
            RlimitResource::Sigpending => "sigpending"@,
            RlimitResource::Msgqueue => "msgqueue"@,
            RlimitResource::Nice => "nice"@,
            RlimitResource::Rtprio => "rtprio"@,
            RlimitResource::Rttime => "rttime"@,
        }
    }

    /// The resource in words.
    pub fn as_str(self) -> (r: &'static str)
        ensures
            r@ == self.text(),
    {
        match self {
            RlimitResource::Cpu => "cpu",
            RlimitResource::Fsize => "fsize",
            RlimitResource::Data => "data",
            RlimitResource::Stack => "stack",
            RlimitResource::Core => "core",
            RlimitResource::Rss => "rss",
            RlimitResource::Nproc => "nproc",
            RlimitResource::Nofile => "nofile",
            RlimitResource::Memlock => "memlock",
            RlimitResource::As => "as",
            RlimitResource::Locks => "locks",
            RlimitResource::Sigpending => "sigpending",
            RlimitResource::Msgqueue => "msgqueue",
            RlimitResource::Nice => "nice",
            RlimitResource::Rtprio => "rtprio",
            RlimitResource::Rttime => "rttime",
        }
    }
}

/// A limit that holds in the whole sandbox.
#[derive(Clone, Copy, Debug, PartialEq, Eq, Structural)]
pub struct Rlimit {
    pub resource: RlimitResource,
    pub soft: u64,
    pub hard: u64,
}

/// One environment variable.
#[derive(Clone)]
pub struct EnvVar {
    pub key: String,
    pub value: String,
}

/// A guest process that takes over as init.
#[derive(Clone)]
pub struct HandoffInit {
    pub cmd: String,
    pub args: Vec<String>,
    pub env: Vec<(String, String)>,
}

/// How guest processes run.
#[derive(Clone)]
pub struct SandboxRuntimeOptions {
    pub workdir: Option<String>,
    pub shell: Option<String>,
    pub scripts: Vec<(String, String)>,
    pub entrypoint: Option<Vec<String>>,
    pub cmd: Option<Vec<String>>,
    pub hostname: Option<String>,
    pub user: Option<String>,
    pub log_level: Option<SandboxLogLevel>,
    /// Milliseconds between metrics samples, where they are not the usual ones; zero takes none.
    pub metrics_sample_interval_ms: Option<u64>,
    /// Takes no metrics samples, whatever the interval.
    pub disable_metrics_sample: bool,
}

/// How long a sandbox lives.
#[derive(Clone, Copy, Debug, PartialEq, Eq, Structural)]
pub struct SandboxPolicy {
    pub ephemeral: bool,
    pub max_duration_secs: Option<u64>,
    pub idle_timeout_secs: Option<u64>,
}

/// A guest port reachable from the host.
#[derive(Clone)]
pub struct PublishedPortSpec {
    pub host_port: u16,
    pub guest_port: u16,
    pub udp: bool,
    pub host_bind: String,
}

/// Network settings beyond the defaults.
#[derive(Clone)]
pub struct NetworkSpec {
    pub ports: Vec<PublishedPortSpec>,
    pub secrets: Vec<String>,
    pub nameservers: Vec<String>,
    pub trust_host_cas: bool,
}

/// Whom the host runs sandboxes for.
#[derive(Clone, Copy, Debug, PartialEq, Eq, Structural)]
pub enum DeploymentProfile {
    SingleTenant,
    MultiTenant,
}

/// A sandbox as it is asked for.
#[derive(Clone)]
pub struct SandboxSpec {
    pub name: String,
    pub image: RootfsSource,
    pub resources: SandboxResources,
    pub runtime: SandboxRuntimeOptions,
    pub env: Vec<EnvVar>,
    pub labels: Vec<(String, String)>,
    pub mounts: Vec<VolumeMount>,
    pub patches: Vec<String>,
    pub rlimits: Vec<Rlimit>,
    pub init: Option<HandoffInit>,
    pub pull_policy: PullPolicy,
    pub security_profile: SecurityProfile,
    pub lifecycle: SandboxPolicy,
    pub network: NetworkSpec,
    /// The profile that the sandbox was resolved to run under, once it was.
    pub deployment_profile: Option<DeploymentProfile>,
}

/// Credentials for a registry.
#[derive(Clone)]
pub enum RegistryAuth {
    Anonymous,
    Basic { username: String, password: String },
}

/// A restore from a checkpoint that has not completed.
#[derive(Clone)]
pub struct CheckpointRestore {
    /// Directory of the checkpoint's objects.
    pub closure: String,
    pub checkpoint_root: String,
    pub checkpoint_id: String,
}

/// A sandbox with everything that its creation needs.
#[derive(Clone)]
pub struct SandboxConfig {
    pub spec: SandboxSpec,
    /// Runs the entrypoint or command right after boot.
    pub startup_command_requested: bool,
    /// The manifest that the image was resolved to.
    pub manifest_digest: Option<String>,
    pub replace_existing: bool,
    /// Milliseconds that a replaced sandbox gets to stop by itself.
    pub replace_with_timeout_ms: Option<u64>,
    pub registry_auth: Option<RegistryAuth>,
    pub insecure: bool,
    pub ca_certs: Vec<Vec<u8>>,
    pub checkpoint_restore: Option<CheckpointRestore>,
    pub snapshot_upper_source: Option<String>,
    pub snapshot_upper_layers: Vec<String>,
    pub snapshot_parent: Option<String>,
    /// Guest paths of the volumes that belong to the sandbox itself.
    pub owned_volumes: Vec<String>,
    pub forked: bool,
}

impl SandboxRuntimeOptions {
    /// The interval between metrics samples, where any are taken; `usual_ms` where none is asked
    /// for.
    pub open spec fn metrics_interval(&self, usual_ms: u64) -> Option<u64> {
        let asked = match self.metrics_sample_interval_ms {
            Some(ms) => ms,
            None => usual_ms,
        };
        if self.disable_metrics_sample || asked == 0 {
            None
        } else {
            Some(asked)
        }
    }
}

impl SandboxConfig {
    /// The interval between metrics samples, where any are taken. Disabling them wins over an
    /// interval.
    pub fn effective_metrics_interval(&self, usual_ms: u64) -> (r: Option<u64>)
        ensures
            r == self.spec.runtime.metrics_interval(usual_ms),
    {
        let asked: u64 = match self.spec.runtime.metrics_sample_interval_ms {
            Some(ms) => ms,
            None => usual_ms,
        };
        if self.spec.runtime.disable_metrics_sample || asked == 0 {
            None
        } else {
            Some(asked)
        }
    }
}

impl Default for SandboxRuntimeOptions {
    fn default() -> (r: Self)
        ensures
            r.workdir is None && r.shell is None && r.entrypoint is None && r.cmd is None,
            r.hostname is None && r.user is None && r.log_level is None,
            r.scripts@.len() == 0,
            r.metrics_sample_interval_ms is None && !r.disable_metrics_sample,
    {
        SandboxRuntimeOptions {
            workdir: None,
            shell: None,
            scripts: Vec::new(),
            entrypoint: None,
            cmd: None,
            hostname: None,
            user: None,
            log_level: None,
            metrics_sample_interval_ms: None,
            disable_metrics_sample: false,
        }
    }
}

impl Default for NetworkSpec {
    fn default() -> (r: Self)
        ensures
            r.ports@.len() == 0 && r.secrets@.len() == 0 && r.nameservers@.len() == 0,
            !r.trust_host_cas,
    {
        NetworkSpec {
            ports: Vec::new(),
            secrets: Vec::new(),
            nameservers: Vec::new(),
            trust_host_cas: false,
        }
    }
}

impl SandboxSpec {
    /// Whether only the name, image and resources were asked for.
    pub open spec fn is_plain(&self) -> bool {
        &&& self.env@.len() == 0 && self.labels@.len() == 0 && self.mounts@.len() == 0
        &&& self.patches@.len() == 0 && self.rlimits@.len() == 0 && self.init is None
        &&& self.pull_policy == PullPolicy::IfMissing
        &&& self.security_profile == SecurityProfile::Default
        &&& self.lifecycle == (SandboxPolicy {
            ephemeral: false,
            max_duration_secs: None,
            idle_timeout_secs: None,
        })
        &&& self.network.ports@.len() == 0 && self.network.secrets@.len() == 0
        &&& self.network.nameservers@.len() == 0 && !self.network.trust_host_cas
        &&& self.deployment_profile is None
        &&& self.runtime.workdir is None && self.runtime.shell is None
        &&& self.runtime.entrypoint is None && self.runtime.cmd is None
        &&& self.runtime.hostname is None && self.runtime.user is None
        &&& self.runtime.log_level is None && self.runtime.scripts@.len() == 0
        &&& self.runtime.metrics_sample_interval_ms is None
        &&& !self.runtime.disable_metrics_sample
    }

    /// A sandbox with the name, image and resources given and nothing else asked for.
    pub fn new(name: String, image: RootfsSource, resources: SandboxResources) -> (r: Self)
        ensures
            r.name == name && r.image == image && r.resources == resources,
            r.is_plain(),
    {
        SandboxSpec {
            name,
            image,
            resources,
            runtime: SandboxRuntimeOptions::default(),
            env: Vec::new(),
            labels: Vec::new(),
            mounts: Vec::new(),
            patches: Vec::new(),
            rlimits: Vec::new(),
            init: None,
            pull_policy: PullPolicy::IfMissing,
            security_profile: SecurityProfile::Default,
            lifecycle: SandboxPolicy {
                ephemeral: false,
                max_duration_secs: None,
                idle_timeout_secs: None,
            },
            network: NetworkSpec::default(),
            deployment_profile: None,
        }
    }
}

impl SandboxConfig {
    /// Whether nothing but the specification was given.
    pub open spec fn is_bare(&self) -> bool {
        &&& !self.startup_command_requested && self.manifest_digest is None
        &&& !self.replace_existing && self.replace_with_timeout_ms is None
        &&& self.registry_auth is None && !self.insecure && self.ca_certs@.len() == 0
        &&& self.checkpoint_restore is None && self.snapshot_upper_source is None
        &&& self.snapshot_upper_layers@.len() == 0 && self.snapshot_parent is None
        &&& self.owned_volumes@.len() == 0 && !self.forked
    }

    /// The specification alone.
    pub fn new(spec: SandboxSpec) -> (r: Self)
        ensures
            r.spec == spec,
            r.is_bare(),
    {
        SandboxConfig {
            spec,
            startup_command_requested: false,
            manifest_digest: None,
            replace_existing: false,
            replace_with_timeout_ms: None,
            registry_auth: None,
            insecure: false,
            ca_certs: Vec::new(),
            checkpoint_restore: None,
            snapshot_upper_source: None,
            snapshot_upper_layers: Vec::new(),
            snapshot_parent: None,
            owned_volumes: Vec::new(),
            forked: false,
        }
    }
}

/// What is written can be read: a level, a format and a kind are named by their own words, which
/// are read back as what they name; words that name nothing are read as none, and every kind that
/// is not a disk is a directory.
pub proof fn words_are_read_back(
    level: SandboxLogLevel,
    format: DiskImageFormat,
    kind: VolumeKind,
    word: Seq<char>,
)
    ensures
        log_level_of(level.text()) == Some(level),
        disk_format_of(format.text()) == Some(format),
        stored_kind(kind.text()) == kind,
        log_level_of(word) matches Some(l) ==> l.text() == word,
        disk_format_of(word) matches Some(f) ==> f.text() == word,
        stored_kind(word) == VolumeKind::Disk ==> word == VolumeKind::Disk.text(),
        level.text() == match level {
            SandboxLogLevel::Error => "error"@,
            SandboxLogLevel::Warn => "warn"@,
            SandboxLogLevel::Info => "info"@,
            SandboxLogLevel::Debug => "debug"@,
            SandboxLogLevel::Trace => "trace"@,
        },
        format.text() == match format {
            DiskImageFormat::Raw => "raw"@,
            DiskImageFormat::Qcow2 => "qcow2"@,
            DiskImageFormat::Vmdk => "vmdk"@,
        },
        kind.text() == match kind {
            VolumeKind::Directory => "dir"@,
            VolumeKind::Disk => "disk"@,
        },
{
    reveal_strlit("error");
    reveal_strlit("warn");
    reveal_strlit("info");
    reveal_strlit("debug");
    reveal_strlit("trace");
    assert("error"@.len() == 5 && "error"@[0] == 'e');
    assert("warn"@.len() == 4 && "warn"@[0] == 'w');
    assert("info"@.len() == 4 && "info"@[0] == 'i');
    assert("debug"@.len() == 5 && "debug"@[0] == 'd');
    assert("trace"@.len() == 5 && "trace"@[0] == 't');
    reveal_strlit("raw");
    reveal_strlit("qcow2");
    reveal_strlit("vmdk");
    assert("raw"@.len() == 3);
    assert("qcow2"@.len() == 5);
    assert("vmdk"@.len() == 4);
    reveal_strlit("dir");
    reveal_strlit("disk");
    assert("dir"@.len() == 3);
    assert("disk"@.len() == 4);
}

/// Each resource that can be limited, and each state of a sandbox, has its own word.
pub proof fn resources_and_states_have_their_words(resource: RlimitResource, status: SandboxStatus)
    ensures
        resource.text() == match resource {
            RlimitResource::Cpu => "cpu"@,
            RlimitResource::Fsize => "fsize"@,
            RlimitResource::Data => "data"@,
            RlimitResource::Stack => "stack"@,
            RlimitResource::Core => "core"@,
            RlimitResource::Rss => "rss"@,
            RlimitResource::Nproc => "nproc"@,
            RlimitResource::Nofile => "nofile"@,
            RlimitResource::Memlock => "memlock"@,
            RlimitResource::As => "as"@,
            RlimitResource::Locks => "locks"@,
            RlimitResource::Sigpending => "sigpending"@,
            RlimitResource::Msgqueue => "msgqueue"@,
            RlimitResource::Nice => "nice"@,
            RlimitResource::Rtprio => "rtprio"@,
            RlimitResource::Rttime => "rttime"@,
        },
        status.text() == match status {
            SandboxStatus::Created => "Created"@,
            SandboxStatus::Starting => "Starting"@,
            SandboxStatus::Running => "Running"@,
            SandboxStatus::Draining => "Draining"@,
            SandboxStatus::Paused => "Paused"@,
            SandboxStatus::Stopped => "Stopped"@,
            SandboxStatus::Crashed => "Crashed"@,
        },
{
}

/// Metrics are sampled at the interval that is asked for, else at the usual one; never where they
/// are disabled, and never at an interval of zero.
pub proof fn metrics_are_sampled_as_asked(runtime: SandboxRuntimeOptions, usual_ms: u64)
    ensures
        runtime.disable_metrics_sample ==> runtime.metrics_interval(usual_ms) is None,
        !runtime.disable_metrics_sample && runtime.metrics_sample_interval_ms == Some(0u64)
            ==> runtime.metrics_interval(usual_ms) is None,
        !runtime.disable_metrics_sample && runtime.metrics_sample_interval_ms is Some
            && runtime.metrics_sample_interval_ms->0 > 0 ==> runtime.metrics_interval(usual_ms)
            == runtime.metrics_sample_interval_ms,
        !runtime.disable_metrics_sample && runtime.metrics_sample_interval_ms is None && usual_ms
            > 0 ==> runtime.metrics_interval(usual_ms) == Some(usual_ms),
{
}

/// A plain sandbox asks for nothing beyond its name, image and size.
pub proof fn plain_sandboxes_ask_for_nothing(spec: SandboxSpec, config: SandboxConfig)
    requires
        spec.is_plain(),
        config.is_bare(),
    ensures
        spec.env@.len() == 0 && spec.labels@.len() == 0 && spec.mounts@.len() == 0,
        spec.patches@.len() == 0 && spec.rlimits@.len() == 0 && spec.init is None,
        spec.security_profile == SecurityProfile::Default,
        spec.pull_policy == PullPolicy::IfMissing,
        !spec.lifecycle.ephemeral,
        spec.lifecycle.max_duration_secs is None && spec.lifecycle.idle_timeout_secs is None,
        spec.runtime.user is None && spec.runtime.cmd is None && spec.runtime.entrypoint is None,
        !spec.runtime.disable_metrics_sample,
        !config.startup_command_requested && !config.replace_existing && !config.insecure,
        config.manifest_digest is None && config.checkpoint_restore is None && !config.forked,
        config.snapshot_upper_source is None && config.snapshot_upper_layers@.len() == 0,
{
}

} // verus!
