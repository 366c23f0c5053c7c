//! Sandboxes in the cloud: what is asked of it, what comes back, and what it does not offer.

use vstd::prelude::*;

use crate::error::{ErrorView, MicrosandboxError, MicrosandboxResult, failure};
use crate::launch::copy_text;
use crate::mounts::text_of;
use crate::namemap::{NameMap, entries_map, named_at, names_once};
use crate::text::{copy_all, views};
use crate::types::{
    EnvVar, NetworkSpec, OciRootfsSource, PullPolicy, RootfsSource, SandboxConfig, SandboxLogLevel,
    SandboxPolicy, SandboxResources, SandboxRuntimeOptions, SandboxSpec, SandboxStatus,
    SecurityProfile, log_level_of,
};

verus! {

// ------------------------------------------------------------------------------------------------
// What the cloud does not offer
// ------------------------------------------------------------------------------------------------

/// The refusal of something that is not offered.
pub open spec fn not_offered(feature: Seq<char>, available_when: Seq<char>) -> ErrorView {
    ErrorView::Unsupported { feature, available_when }
}

/// The refusal of something that is not offered.
pub fn unsupported(feature: &str, available_when: &str) -> (r: MicrosandboxError)
    ensures
        r@ == not_offered(feature@, available_when@),
{
    MicrosandboxError::Unsupported {
        feature: feature.to_owned(),
        available_when: available_when.to_owned(),
    }
}

/// The refusal of a way to run commands.
pub fn unsupported_exec(feature: &str) -> (r: MicrosandboxError)
    ensures
        r@ == not_offered(feature@, "when cloud exec lands"@),
{
    unsupported(feature, "when cloud exec lands")
}

/// The refusal of a file operation.
pub fn unsupported_fs(feature: &str) -> (r: MicrosandboxError)
    ensures
        r@ == not_offered(feature@, "when cloud guest fs lands"@),
{
    unsupported(feature, "when cloud guest fs lands")
}

/// The refusal of metrics.
pub fn unsupported_metrics(feature: &str) -> (r: MicrosandboxError)
    ensures
        r@ == not_offered(feature@, "when cloud metrics land"@),
{
    unsupported(feature, "when cloud metrics land")
}

/// Refuses something that is asked for and not offered yet.
pub fn reject_cloud_deferred(present: bool, feature: &str, available_when: &str) -> (r:
    MicrosandboxResult<()>)
    ensures
        failure(r) == if present {
            Some(not_offered(feature@, available_when@))
        } else {
            None
        },
{
    if present {
        return Err(unsupported(feature, available_when));
    }
    Ok(())
}

/// What cannot be done to a sandbox in the cloud.
#[derive(Clone, Copy, Debug, PartialEq, Eq, Structural)]
pub enum CloudOperation {
    /// Killing a sandbox.
    Kill,
    /// Draining a sandbox.
    Drain,
    /// Running a command with streams.
    ExecStream,
    /// Attaching a terminal.
    Attach,
    /// A sample of metrics.
    Metrics,
    /// A stream of metrics.
    MetricsStream,
    FsRead,
    FsReadStream,
    FsWrite,
    FsWriteStream,
    FsList,
    FsStat,
    FsMkdir,
    FsRemove,
    FsCopy,
    FsRename,
    FsExists,
    FsCopyFromHost,
    FsCopyToHost,
}

/// The refusal of an operation.
pub open spec fn refused_operation(operation: CloudOperation) -> ErrorView {
    match operation {
        CloudOperation::Kill => not_offered(
            "cloud sandbox kill"@,
            "when cloud forced-stop lands"@,
        ),
        CloudOperation::Drain => not_offered(
            "cloud sandbox drain"@,
            "when cloud graceful-drain lands"@,
        ),
        CloudOperation::ExecStream => not_offered(
            "Sandbox::exec_stream"@,
            "when cloud exec lands"@,
        ),
        CloudOperation::Attach => not_offered(
            "Sandbox::attach"@,
            "when cloud exec lands"@,
        ),
        CloudOperation::Metrics => not_offered(
            "Sandbox::metrics"@,
            "when cloud metrics land"@,
        ),
        CloudOperation::MetricsStream => not_offered(
            "Sandbox::metrics_stream"@,
            "when cloud metrics land"@,
        ),
        CloudOperation::FsRead => not_offered(
            "SandboxFsOps::read"@,
            "when cloud guest fs lands"@,
        ),
        CloudOperation::FsReadStream => not_offered(
            "SandboxFsOps::read_stream"@,
            "when cloud guest fs lands"@,
        ),
        CloudOperation::FsWrite => not_offered(
            "SandboxFsOps::write"@,
            "when cloud guest fs lands"@,
        ),
        CloudOperation::FsWriteStream => not_offered(
            "SandboxFsOps::write_stream"@,
            "when cloud guest fs lands"@,
        ),
        CloudOperation::FsList => not_offered(
            "SandboxFsOps::list"@,
            "when cloud guest fs lands"@,
        ),
        CloudOperation::FsStat => not_offered(
            "SandboxFsOps::stat"@,
            "when cloud guest fs lands"@,
        ),
        CloudOperation::FsMkdir => not_offered(
            "SandboxFsOps::mkdir"@,
            "when cloud guest fs lands"@,
        ),
        CloudOperation::FsRemove => not_offered(
            "SandboxFsOps::remove"@,
            "when cloud guest fs lands"@,
        ),
        CloudOperation::FsCopy => not_offered(
            "SandboxFsOps::copy"@,
            "when cloud guest fs lands"@,
        ),
        CloudOperation::FsRename => not_offered(
            "SandboxFsOps::rename"@,
            "when cloud guest fs lands"@,
        ),
        CloudOperation::FsExists => not_offered(
            "SandboxFsOps::exists"@,
            "when cloud guest fs lands"@,
        ),
        CloudOperation::FsCopyFromHost => not_offered(
            "SandboxFsOps::copy_from_host"@,
            "when cloud guest fs lands"@,
        ),
        CloudOperation::FsCopyToHost => not_offered(
            "SandboxFsOps::copy_to_host"@,
            "when cloud guest fs lands"@,
        ),
    }
}

/// The refusal of an operation.
pub fn refuse_operation(operation: CloudOperation) -> (r: MicrosandboxError)
    ensures
        r@ == refused_operation(operation),
{
    match operation {
        CloudOperation::Kill => unsupported("cloud sandbox kill", "when cloud forced-stop lands"),
        CloudOperation::Drain => unsupported("cloud sandbox drain", "when cloud graceful-drain lands"),
        CloudOperation::ExecStream => unsupported_exec("Sandbox::exec_stream"),
        CloudOperation::Attach => unsupported_exec("Sandbox::attach"),
        CloudOperation::Metrics => unsupported_metrics("Sandbox::metrics"),
        CloudOperation::MetricsStream => unsupported_metrics("Sandbox::metrics_stream"),
        CloudOperation::FsRead => unsupported_fs("SandboxFsOps::read"),
        CloudOperation::FsReadStream => unsupported_fs("SandboxFsOps::read_stream"),
        CloudOperation::FsWrite => unsupported_fs("SandboxFsOps::write"),
        CloudOperation::FsWriteStream => unsupported_fs("SandboxFsOps::write_stream"),
        CloudOperation::FsList => unsupported_fs("SandboxFsOps::list"),
        CloudOperation::FsStat => unsupported_fs("SandboxFsOps::stat"),
        CloudOperation::FsMkdir => unsupported_fs("SandboxFsOps::mkdir"),
        CloudOperation::FsRemove => unsupported_fs("SandboxFsOps::remove"),
        CloudOperation::FsCopy => unsupported_fs("SandboxFsOps::copy"),
        CloudOperation::FsRename => unsupported_fs("SandboxFsOps::rename"),
        CloudOperation::FsExists => unsupported_fs("SandboxFsOps::exists"),
        CloudOperation::FsCopyFromHost => unsupported_fs("SandboxFsOps::copy_from_host"),
        CloudOperation::FsCopyToHost => unsupported_fs("SandboxFsOps::copy_to_host"),
    }
}

// ------------------------------------------------------------------------------------------------
// Requests
// ------------------------------------------------------------------------------------------------

/// A sandbox as it is asked of the cloud.
pub struct CloudCreateSandboxRequest {
    pub name: String,
    pub image: String,
    pub vcpus: u8,
    pub memory_mib: u32,
    pub env: NameMap<String>,
    pub ephemeral: bool,
    pub workdir: Option<String>,
    pub shell: Option<String>,
    pub entrypoint: Option<Vec<String>>,
    pub hostname: Option<String>,
    pub user: Option<String>,
    pub log_level: Option<String>,
    pub scripts: NameMap<String>,
    pub max_duration_secs: Option<u64>,
    pub idle_timeout_secs: Option<u64>,
}

/// The values of a list of variables: the last one of a name counts.
pub open spec fn env_values(env: Seq<EnvVar>) -> Map<Seq<char>, String>
    decreases env.len(),
{
    if env.len() == 0 {
        Map::empty()
    } else {
        env_values(env.drop_last()).insert(env.last().key@, env.last().value)
    }
}

/// The values of a list of pairs: the last one of a name counts.
pub open spec fn pair_values(pairs: Seq<(String, String)>) -> Map<Seq<char>, String>
    decreases pairs.len(),
{
    if pairs.len() == 0 {
        Map::empty()
    } else {
        pair_values(pairs.drop_last()).insert(pairs.last().0@, pairs.last().1)
    }
}

/// The names and values of a list of variables.
fn env_map(env: &Vec<EnvVar>) -> (r: NameMap<String>)
    ensures
        r@ == env_values(env@),
{
    let mut map: NameMap<String> = NameMap::new();
    let mut i: usize = 0;
    while i < env.len()
        invariant
            i <= env@.len(),
            map@ == env_values(env@.take(i as int)),
        decreases env@.len() - i,
    {
        assert(env@.take(i + 1).drop_last() =~= env@.take(i as int));
        map = map.with(env[i].key.clone(), env[i].value.clone());
        i = i + 1;
    }
    assert(env@.take(i as int) =~= env@);
    map
}

/// The names and values of a list of pairs.
fn pair_map(pairs: &Vec<(String, String)>) -> (r: NameMap<String>)
    ensures
        r@ == pair_values(pairs@),
{
    let mut map: NameMap<String> = NameMap::new();
    let mut i: usize = 0;
    while i < pairs.len()
        invariant
            i <= pairs@.len(),
            map@ == pair_values(pairs@.take(i as int)),
        decreases pairs@.len() - i,
    {
        assert(pairs@.take(i + 1).drop_last() =~= pairs@.take(i as int));
        map = map.with(pairs[i].0.clone(), pairs[i].1.clone());
        i = i + 1;
    }
    assert(pairs@.take(i as int) =~= pairs@);
    map
}

/// Whether network settings go beyond the usual ones.
pub open spec fn has_own_network(network: NetworkSpec) -> bool {
    network.ports@.len() > 0 || network.secrets@.len() > 0 || network.nameservers@.len() > 0
        || network.trust_host_cas
}

/// What of a configuration the cloud does not offer, the first of it.
pub open spec fn cloud_refusal(config: SandboxConfig) -> Option<ErrorView> {
    if config.spec.mounts@.len() > 0 {
        Some(not_offered("mounts"@, "when cloud volumes ship"@))
    } else if config.spec.patches@.len() > 0 {
        Some(not_offered("patches"@, "when cloud volumes ship"@))
    } else if config.spec.rlimits@.len() > 0 {
        Some(not_offered("rlimits"@, "when rlimits land on the cloud API"@))
    } else if config.spec.runtime.cmd is Some {
        Some(not_offered("cmd"@, "when cmd lands on the cloud API"@))
    } else if config.replace_existing {
        Some(not_offered(".replace()"@, "when cloud sandbox replace semantics land"@))
    } else if config.spec.init is Some {
        Some(not_offered("init"@, "when cloud init wrapper lands"@))
    } else if config.spec.pull_policy != PullPolicy::IfMissing {
        Some(not_offered("pull_policy"@, "when cloud pull policy lands"@))
    } else if config.registry_auth is Some {
        Some(not_offered("registry_auth"@, "when cloud registry auth lands"@))
    } else if config.insecure {
        Some(not_offered("insecure registries"@, "when cloud insecure-registry support lands"@))
    } else if config.ca_certs@.len() > 0 {
        Some(not_offered("ca_certs"@, "when cloud custom CA certs land"@))
    } else if has_own_network(config.spec.network) {
        Some(not_offered("network policy / ports / secrets"@, "when cloud networking ships"@))
    } else {
        match config.spec.image {
            RootfsSource::Oci(_) => None,
            RootfsSource::Bind { .. } => Some(
                not_offered("image-from-host-dir"@, "when cloud volumes ship"@),
            ),
            RootfsSource::DiskImage { .. } => Some(
                not_offered("disk-image rootfs"@, "never on cloud"@),
            ),
        }
    }
}

/// A list of texts, where there is one.
pub open spec fn words_of_list(list: Option<Vec<String>>) -> Option<Seq<Seq<char>>> {
    match list {
        Some(items) => Some(views(items@)),
        None => None,
    }
}

/// What is asked of the cloud for a configuration.
pub open spec fn is_request_of(request: CloudCreateSandboxRequest, config: SandboxConfig) -> bool {
    &&& request.name@ == config.spec.name@
    &&& config.spec.image matches RootfsSource::Oci(image) && request.image@ == image.reference@
    &&& request.vcpus == config.spec.resources.cpus
    &&& request.memory_mib == config.spec.resources.memory_mib
    &&& request.env@ == env_values(config.spec.env@)
    &&& request.ephemeral == config.spec.lifecycle.ephemeral
    &&& text_of(request.workdir) == text_of(config.spec.runtime.workdir)
    &&& text_of(request.shell) == text_of(config.spec.runtime.shell)
    &&& words_of_list(request.entrypoint) == words_of_list(config.spec.runtime.entrypoint)
    &&& text_of(request.hostname) == text_of(config.spec.runtime.hostname)
    &&& text_of(request.user) == text_of(config.spec.runtime.user)
    &&& text_of(request.log_level) == match config.spec.runtime.log_level {
        Some(level) => Some(level.text()),
        None => None,
    }
    &&& request.scripts@ == pair_values(config.spec.runtime.scripts@)
    &&& request.max_duration_secs == config.spec.lifecycle.max_duration_secs
    &&& request.idle_timeout_secs == config.spec.lifecycle.idle_timeout_secs
}

/// What is asked of the cloud for a configuration, unless it does not offer all of it.
pub fn cloud_create_request_from_config(config: SandboxConfig) -> (r: MicrosandboxResult<
    CloudCreateSandboxRequest,
>)
    ensures
        failure(r) == cloud_refusal(config),
        r matches Ok(request) ==> is_request_of(request, config),
{
    if let Err(e) = reject_cloud_deferred(config.spec.mounts.len() > 0, "mounts", "when cloud volumes ship") {
        return Err(e);
    }
    if let Err(e) = reject_cloud_deferred(config.spec.patches.len() > 0, "patches", "when cloud volumes ship") {
        return Err(e);
    }
    if let Err(e) = reject_cloud_deferred(config.spec.rlimits.len() > 0, "rlimits", "when rlimits land on the cloud API") {
        return Err(e);
    }
    if let Err(e) = reject_cloud_deferred(config.spec.runtime.cmd.is_some(), "cmd", "when cmd lands on the cloud API") {
        return Err(e);
    }
    if let Err(e) = reject_cloud_deferred(config.replace_existing, ".replace()", "when cloud sandbox replace semantics land") {
        return Err(e);
    }
    if let Err(e) = reject_cloud_deferred(config.spec.init.is_some(), "init", "when cloud init wrapper lands") {
        return Err(e);
    }
    if let Err(e) = reject_cloud_deferred(config.spec.pull_policy != PullPolicy::IfMissing, "pull_policy", "when cloud pull policy lands") {
        return Err(e);
    }
    if let Err(e) = reject_cloud_deferred(config.registry_auth.is_some(), "registry_auth", "when cloud registry auth lands") {
        return Err(e);
    }
    if let Err(e) = reject_cloud_deferred(config.insecure, "insecure registries", "when cloud insecure-registry support lands") {
        return Err(e);
    }
    if let Err(e) = reject_cloud_deferred(config.ca_certs.len() > 0, "ca_certs", "when cloud custom CA certs land") {
        return Err(e);
    }
    let network = &config.spec.network;
    let custom_network = network.ports.len() > 0 || network.secrets.len() > 0
        || network.nameservers.len() > 0 || network.trust_host_cas;
    if let Err(e) = reject_cloud_deferred(custom_network, "network policy / ports / secrets", "when cloud networking ships") {
        return Err(e);
    }
    let image = match config.spec.image {
        RootfsSource::Oci(image) => image.reference,
        RootfsSource::Bind { .. } => {
            return Err(unsupported("image-from-host-dir", "when cloud volumes ship"));
        },
        RootfsSource::DiskImage { .. } => {
            return Err(unsupported("disk-image rootfs", "never on cloud"));
        },
    };
    let env = env_map(&config.spec.env);
    let scripts = pair_map(&config.spec.runtime.scripts);
    let log_level = match config.spec.runtime.log_level {
        Some(level) => Some(level.as_str().to_owned()),
        None => None,
    };
    Ok(
        CloudCreateSandboxRequest {
            name: config.spec.name,
            image,
            vcpus: config.spec.resources.cpus,
            memory_mib: config.spec.resources.memory_mib,
            env,
            ephemeral: config.spec.lifecycle.ephemeral,
            workdir: config.spec.runtime.workdir,
            shell: config.spec.runtime.shell,
            entrypoint: config.spec.runtime.entrypoint,
            hostname: config.spec.runtime.hostname,
            user: config.spec.runtime.user,
            log_level,
            scripts,
            max_duration_secs: config.spec.lifecycle.max_duration_secs,
            idle_timeout_secs: config.spec.lifecycle.idle_timeout_secs,
        },
    )
}

// ------------------------------------------------------------------------------------------------
// Answers
// ------------------------------------------------------------------------------------------------

/// The state of a sandbox as the cloud names it.
#[derive(Clone, Copy, Debug, PartialEq, Eq, Structural)]
pub enum CloudSandboxStatus {
    Created,
    Starting,
    Running,
    Stopping,
    Stopped,
    Failed,
}

/// A sandbox as the cloud reports it. Times are microseconds since the epoch.
pub struct CloudSandbox {
    pub id: String,
    pub org_id: String,
    pub name: String,
    pub status: CloudSandboxStatus,
    pub config: CloudCreateSandboxRequest,
    pub ephemeral: bool,
    pub created_at: i64,
    pub started_at: Option<i64>,
    pub stopped_at: Option<i64>,
    pub last_error: Option<String>,
}

/// The state that a state in the cloud stands for.
pub open spec fn status_of(s: CloudSandboxStatus) -> SandboxStatus {
    match s {
        CloudSandboxStatus::Created => SandboxStatus::Created,
        CloudSandboxStatus::Starting => SandboxStatus::Starting,
        CloudSandboxStatus::Running => SandboxStatus::Running,
        CloudSandboxStatus::Stopping => SandboxStatus::Draining,
        CloudSandboxStatus::Stopped => SandboxStatus::Stopped,
        CloudSandboxStatus::Failed => SandboxStatus::Crashed,
    }
}

/// The state that a state in the cloud stands for: stopping is draining, failing is crashing.
pub fn cloud_status_to_sandbox_status(s: CloudSandboxStatus) -> (r: SandboxStatus)
    ensures
        r == status_of(s),
{
    match s {
        CloudSandboxStatus::Created => SandboxStatus::Created,
        CloudSandboxStatus::Starting => SandboxStatus::Starting,
        CloudSandboxStatus::Running => SandboxStatus::Running,
        CloudSandboxStatus::Stopping => SandboxStatus::Draining,
        CloudSandboxStatus::Stopped => SandboxStatus::Stopped,
        CloudSandboxStatus::Failed => SandboxStatus::Crashed,
    }
}

/// Two states in the cloud never stand for the same state.
pub proof fn states_are_kept_apart(a: CloudSandboxStatus, b: CloudSandboxStatus)
    requires
        status_of(a) == status_of(b),
    ensures
        a == b,
{
}

/// The configuration that a sandbox in the cloud has: what the cloud does not know is as usual.
pub open spec fn is_config_of(config: SandboxConfig, request: CloudCreateSandboxRequest) -> bool {
    let runtime = config.spec.runtime;
    &&& config.is_bare()
    &&& config.spec.name@ == request.name@
    &&& config.spec.image matches RootfsSource::Oci(image) && image.reference@ == request.image@
        && image.root_disk is None
    &&& config.spec.resources == (SandboxResources {
        cpus: request.vcpus,
        memory_mib: request.memory_mib,
        max_cpus: request.vcpus,
        max_memory_mib: request.memory_mib,
    })
    &&& text_of(runtime.workdir) == text_of(request.workdir)
    &&& text_of(runtime.shell) == text_of(request.shell)
    &&& words_of_list(runtime.entrypoint) == words_of_list(request.entrypoint)
    &&& text_of(runtime.hostname) == text_of(request.hostname)
    &&& text_of(runtime.user) == text_of(request.user)
    &&& runtime.log_level == match text_of(request.log_level) {
        Some(level) => log_level_of(level),
        None => None,
    }
    &&& pair_values(runtime.scripts@) == request.scripts@
    &&& names_once(runtime.scripts@)
    &&& runtime.cmd is None && runtime.metrics_sample_interval_ms is None
    &&& !runtime.disable_metrics_sample
    &&& env_values(config.spec.env@) == request.env@
    &&& config.spec.lifecycle == (SandboxPolicy {
        ephemeral: request.ephemeral,
        max_duration_secs: request.max_duration_secs,
        idle_timeout_secs: request.idle_timeout_secs,
    })
    &&& config.spec.mounts@.len() == 0 && config.spec.patches@.len() == 0
    &&& config.spec.rlimits@.len() == 0 && config.spec.labels@.len() == 0
    &&& config.spec.init is None && config.spec.pull_policy == PullPolicy::IfMissing
    &&& !has_own_network(config.spec.network)
    &&& config.spec.security_profile == SecurityProfile::Default
    &&& config.spec.deployment_profile is None
}

/// A list with one entry per name stands for the same map as a whole and one by one.
proof fn lemma_pair_values(entries: Seq<(String, String)>)
    requires
        names_once(entries),
    ensures
        pair_values(entries) == entries_map(entries),
    decreases entries.len(),
{
    let map = entries_map(entries);
    if entries.len() == 0 {
        assert forall|k: Seq<char>| !map.dom().contains(k) by {
            assert(forall|i: int| !named_at(entries, k, i));
        }
        assert(map =~= Map::empty());
    } else {
        let before = entries.drop_last();
        let last = entries.len() - 1;
        assert forall|i: int, j: int|
            0 <= i < before.len() && 0 <= j < before.len() && (#[trigger] before[i]).0@ == (
            #[trigger] before[j]).0@ implies i == j by {
            assert(entries[i].0@ == entries[j].0@);
        }
        lemma_pair_values(before);
        let k0 = entries.last().0@;
        assert(named_at(entries, k0, last));
        assert forall|k: Seq<char>| #[trigger] map.dom().contains(k) <==> pair_values(
            entries,
        ).dom().contains(k) by {
            if map.dom().contains(k) && k != k0 {
                let i = choose|i: int| named_at(entries, k, i);
                assert(named_at(before, k, i));
            }
            if entries_map(before).dom().contains(k) {
                let i = choose|i: int| named_at(before, k, i);
                assert(named_at(entries, k, i));
            }
        }
        assert forall|k: Seq<char>| #[trigger] map.dom().contains(k) implies map[k] == pair_values(
            entries,
        )[k] by {
            let i = choose|i: int| named_at(entries, k, i);
            if k == k0 {
                assert(entries[i].0@ == entries[last].0@);
            } else {
                assert(named_at(before, k, i));
                let j = choose|j: int| named_at(before, k, j);
                assert(before[i].0@ == before[j].0@);
            }
        }
        assert(map =~= pair_values(entries));
    }
}

/// The pairs of a map.
fn pairs_of(map: &NameMap<String>) -> (r: Vec<(String, String)>)
    ensures
        names_once(r@),
        pair_values(r@) == map@,
{
    let entries = map.entries();
    let mut out: Vec<(String, String)> = Vec::new();
    let mut i: usize = 0;
    while i < entries.len()
        invariant
            i <= entries@.len(),
            out@ == entries@.take(i as int),
        decreases entries@.len() - i,
    {
        out.push((entries[i].0.clone(), entries[i].1.clone()));
        i = i + 1;
        assert(out@ =~= entries@.take(i as int));
    }
    assert(out@ =~= entries@);
    proof {
        lemma_pair_values(entries@);
    }
    out
}

/// Variables with the same names and values as pairs.
proof fn lemma_env_pairs(env: Seq<EnvVar>, pairs: Seq<(String, String)>)
    requires
        env.len() == pairs.len(),
        forall|i: int|
            0 <= i < env.len() ==> (#[trigger] env[i]).key == pairs[i].0 && env[i].value
                == pairs[i].1,
    ensures
        env_values(env) == pair_values(pairs),
    decreases env.len(),
{
    if env.len() > 0 {
        lemma_env_pairs(env.drop_last(), pairs.drop_last());
        assert(env.last() == env[env.len() - 1]);
    }
}

/// The variables of a map.
fn env_of(map: &NameMap<String>) -> (r: Vec<EnvVar>)
    ensures
        env_values(r@) == map@,
{
    let pairs = pairs_of(map);
    let mut out: Vec<EnvVar> = Vec::new();
    let mut i: usize = 0;
    while i < pairs.len()
        invariant
            i <= pairs@.len(),
            out@.len() == i,
            forall|k: int|
                0 <= k < i ==> (#[trigger] out@[k]).key == pairs@[k].0 && out@[k].value
                    == pairs@[k].1,
        decreases pairs@.len() - i,
    {
        out.push(EnvVar { key: pairs[i].0.clone(), value: pairs[i].1.clone() });
        i = i + 1;
    }
    proof {
        lemma_env_pairs(out@, pairs@);
    }
    out
}

/// A copy of a list, where there is one.
fn copy_list(list: &Option<Vec<String>>) -> (r: Option<Vec<String>>)
    ensures
        words_of_list(r) == words_of_list(*list),
{
    match list {
        Some(items) => Some(copy_all(items)),
        None => None,
    }
}

/// The configuration that a sandbox in the cloud has. A log level that the library does not know
/// is none.
pub fn sandbox_config_from_cloud(cloud: &CloudSandbox) -> (r: SandboxConfig)
    ensures
        is_config_of(r, cloud.config),
{
    let request = &cloud.config;
    let log_level = match &request.log_level {
        Some(level) => SandboxLogLevel::parse(level.as_str()),
        None => None,
    };
    let mut spec = SandboxSpec::new(
        request.name.clone(),
        RootfsSource::Oci(OciRootfsSource { reference: request.image.clone(), root_disk: None }),
        SandboxResources {
            cpus: request.vcpus,
            memory_mib: request.memory_mib,
            max_cpus: request.vcpus,
            max_memory_mib: request.memory_mib,
        },
    );
    spec.runtime = SandboxRuntimeOptions {
        workdir: copy_text(&request.workdir),
        shell: copy_text(&request.shell),
        scripts: pairs_of(&request.scripts),
        entrypoint: copy_list(&request.entrypoint),
        cmd: None,
        hostname: copy_text(&request.hostname),
        user: copy_text(&request.user),
        log_level,
        metrics_sample_interval_ms: None,
        disable_metrics_sample: false,
    };
    spec.env = env_of(&request.env);
    spec.lifecycle = SandboxPolicy {
        ephemeral: request.ephemeral,
        max_duration_secs: request.max_duration_secs,
        idle_timeout_secs: request.idle_timeout_secs,
    };
    SandboxConfig::new(spec)
}

proof fn lemma_log_levels(level: SandboxLogLevel)
    ensures
        log_level_of(level.text()) == Some(level),
{
    reveal_strlit("error");
    reveal_strlit("warn");
    reveal_strlit("info");
    reveal_strlit("debug");
    reveal_strlit("trace");
    assert("error"@.len() == 5 && "error"@[0] == 'e');
    assert("warn"@.len() == 4 && "warn"@[0] == 'w');
    assert("info"@.len() == 4 && "info"@[0] == 'i');
    assert("debug"@.len() == 5 && "debug"@[0] == 'd');
    assert("trace"@.len() == 5 && "trace"@[0] == 't');
}

/// What the cloud was asked for comes back: the configuration of a sandbox that was created from a
/// request has everything that the request was made from.
pub proof fn requests_come_back(
    config: SandboxConfig,
    request: CloudCreateSandboxRequest,
    back: SandboxConfig,
)
    requires
        is_request_of(request, config),
        is_config_of(back, request),
    ensures
        back.spec.name@ == config.spec.name@,
        back.spec.image->Oci_0.reference@ == config.spec.image->Oci_0.reference@,
        back.spec.resources.cpus == config.spec.resources.cpus,
        back.spec.resources.memory_mib == config.spec.resources.memory_mib,
        env_values(back.spec.env@) == env_values(config.spec.env@),
        back.spec.lifecycle == config.spec.lifecycle,
        text_of(back.spec.runtime.workdir) == text_of(config.spec.runtime.workdir),
        text_of(back.spec.runtime.shell) == text_of(config.spec.runtime.shell),
        words_of_list(back.spec.runtime.entrypoint) == words_of_list(config.spec.runtime.entrypoint),
        text_of(back.spec.runtime.hostname) == text_of(config.spec.runtime.hostname),
        text_of(back.spec.runtime.user) == text_of(config.spec.runtime.user),
        back.spec.runtime.log_level == config.spec.runtime.log_level,
        pair_values(back.spec.runtime.scripts@) == pair_values(config.spec.runtime.scripts@),
{
    if let Some(level) = config.spec.runtime.log_level {
        lemma_log_levels(level);
    }
}

/// What came back from the cloud can be asked of it again.
pub proof fn answers_can_be_asked_for(back: SandboxConfig, request: CloudCreateSandboxRequest)
    requires
        is_config_of(back, request),
    ensures
        cloud_refusal(back) is None,
{
}

/// A request says what the configuration asks for, each thing in its own place.
pub proof fn requests_say_what_is_asked(config: SandboxConfig, request: CloudCreateSandboxRequest)
    requires
        is_request_of(request, config),
    ensures
        request.name@ == config.spec.name@,
        config.spec.image is Oci,
        request.image@ == config.spec.image->Oci_0.reference@,
        request.vcpus == config.spec.resources.cpus,
        request.memory_mib == config.spec.resources.memory_mib,
        request.ephemeral == config.spec.lifecycle.ephemeral,
        request.max_duration_secs == config.spec.lifecycle.max_duration_secs,
        request.idle_timeout_secs == config.spec.lifecycle.idle_timeout_secs,
        text_of(request.workdir) == text_of(config.spec.runtime.workdir),
        text_of(request.shell) == text_of(config.spec.runtime.shell),
        text_of(request.hostname) == text_of(config.spec.runtime.hostname),
        text_of(request.user) == text_of(config.spec.runtime.user),
        request.entrypoint is Some <==> config.spec.runtime.entrypoint is Some,
        request.entrypoint is Some ==> views(request.entrypoint->0@) == views(
            config.spec.runtime.entrypoint->0@,
        ),
        request.log_level is Some <==> config.spec.runtime.log_level is Some,
        match config.spec.runtime.log_level {
            Some(SandboxLogLevel::Error) => request.log_level->0@ == "error"@,
            Some(SandboxLogLevel::Warn) => request.log_level->0@ == "warn"@,
            Some(SandboxLogLevel::Info) => request.log_level->0@ == "info"@,
            Some(SandboxLogLevel::Debug) => request.log_level->0@ == "debug"@,
            Some(SandboxLogLevel::Trace) => request.log_level->0@ == "trace"@,
            None => true,
        },
        request.env@ == env_values(config.spec.env@),
        request.scripts@ == pair_values(config.spec.runtime.scripts@),
{
}

/// Of variables with one name the last counts, and every name has a value: another variable sets
/// its own name and leaves the others. Scripts are no different.
pub proof fn the_last_value_of_a_name_counts(
    env: Seq<EnvVar>,
    var: EnvVar,
    pairs: Seq<(String, String)>,
    pair: (String, String),
    other: Seq<char>,
)
    ensures
        env_values(Seq::empty()) == Map::<Seq<char>, String>::empty(),
        env_values(env.push(var)).dom().contains(var.key@),
        env_values(env.push(var))[var.key@] == var.value,
        other != var.key@ ==> (env_values(env.push(var)).dom().contains(other) <==> env_values(
            env,
        ).dom().contains(other)),
        other != var.key@ && env_values(env).dom().contains(other) ==> env_values(
            env.push(var),
        )[other] == env_values(env)[other],
        pair_values(Seq::empty()) == Map::<Seq<char>, String>::empty(),
        pair_values(pairs.push(pair)).dom().contains(pair.0@),
        pair_values(pairs.push(pair))[pair.0@] == pair.1,
        other != pair.0@ ==> (pair_values(pairs.push(pair)).dom().contains(other) <==> pair_values(
            pairs,
        ).dom().contains(other)),
        other != pair.0@ && pair_values(pairs).dom().contains(other) ==> pair_values(
            pairs.push(pair),
        )[other] == pair_values(pairs)[other],
{
    assert(env.push(var).drop_last() =~= env);
    assert(pairs.push(pair).drop_last() =~= pairs);
}

/// The cloud takes a configuration exactly where it asks for nothing that the cloud does not offer:
/// an image without mounts, patches, limits, a command, leave to replace, an init process, a pull
/// policy of its own, registry settings or network settings. Every refusal says that something is
/// not offered.
pub proof fn the_cloud_takes_what_it_offers(config: SandboxConfig)
    ensures
        cloud_refusal(config) is None <==> {
            &&& config.spec.mounts@.len() == 0
            &&& config.spec.patches@.len() == 0
            &&& config.spec.rlimits@.len() == 0
            &&& config.spec.runtime.cmd is None
            &&& !config.replace_existing
            &&& config.spec.init is None
            &&& config.spec.pull_policy == PullPolicy::IfMissing
            &&& config.registry_auth is None
            &&& !config.insecure
            &&& config.ca_certs@.len() == 0
            &&& config.spec.network.ports@.len() == 0
            &&& config.spec.network.secrets@.len() == 0
            &&& config.spec.network.nameservers@.len() == 0
            &&& !config.spec.network.trust_host_cas
            &&& config.spec.image is Oci
        },
        cloud_refusal(config) is Some ==> cloud_refusal(config)->0 is Unsupported,
{
}

/// The states in the cloud stand for the states here: stopping is draining and failing is crashing,
/// and the others are the same.
pub proof fn cloud_states_stand_for_states(s: CloudSandboxStatus)
    ensures
        status_of(s) == match s {
            CloudSandboxStatus::Created => SandboxStatus::Created,
            CloudSandboxStatus::Starting => SandboxStatus::Starting,
            CloudSandboxStatus::Running => SandboxStatus::Running,
            CloudSandboxStatus::Stopping => SandboxStatus::Draining,
            CloudSandboxStatus::Stopped => SandboxStatus::Stopped,
            CloudSandboxStatus::Failed => SandboxStatus::Crashed,
        },
{
}

/// The configuration of a sandbox in the cloud has what was asked for, with its sizes as its
/// limits, and what the cloud does not know as it is by default.
pub proof fn answers_say_what_was_asked(config: SandboxConfig, request: CloudCreateSandboxRequest)
    requires
        is_config_of(config, request),
    ensures
        config.spec.name@ == request.name@,
        config.spec.image is Oci,
        config.spec.image->Oci_0.reference@ == request.image@,
        config.spec.image->Oci_0.root_disk is None,
        config.spec.resources.cpus == request.vcpus,
        config.spec.resources.max_cpus == request.vcpus,
        config.spec.resources.memory_mib == request.memory_mib,
        config.spec.resources.max_memory_mib == request.memory_mib,
        config.spec.lifecycle.ephemeral == request.ephemeral,
        config.spec.lifecycle.max_duration_secs == request.max_duration_secs,
        config.spec.lifecycle.idle_timeout_secs == request.idle_timeout_secs,
        text_of(config.spec.runtime.workdir) == text_of(request.workdir),
        text_of(config.spec.runtime.shell) == text_of(request.shell),
        text_of(config.spec.runtime.hostname) == text_of(request.hostname),
        text_of(config.spec.runtime.user) == text_of(request.user),
        env_values(config.spec.env@) == request.env@,
        pair_values(config.spec.runtime.scripts@) == request.scripts@,
        config.spec.runtime.cmd is None,
        config.spec.init is None,
        config.spec.mounts@.len() == 0,
        config.spec.patches@.len() == 0,
        config.spec.labels@.len() == 0,
        config.spec.security_profile == SecurityProfile::Default,
        config.checkpoint_restore is None,
        !config.startup_command_requested,
        !config.replace_existing,
{
}

/// Each operation that the cloud does not offer yet is refused under its own name, with the time at
/// which it will be there; what works on files in the guest waits for the same.
pub proof fn operations_are_refused_by_name()
    ensures
        refused_operation(CloudOperation::Kill) == (ErrorView::Unsupported {
            feature: "cloud sandbox kill"@,
            available_when: "when cloud forced-stop lands"@,
        }),
        refused_operation(CloudOperation::Drain) == (ErrorView::Unsupported {
            feature: "cloud sandbox drain"@,
            available_when: "when cloud graceful-drain lands"@,
        }),
        refused_operation(CloudOperation::ExecStream) == (ErrorView::Unsupported {
            feature: "Sandbox::exec_stream"@,
            available_when: "when cloud exec lands"@,
        }),
        refused_operation(CloudOperation::Attach) == (ErrorView::Unsupported {
            feature: "Sandbox::attach"@,
            available_when: "when cloud exec lands"@,
        }),
        refused_operation(CloudOperation::Metrics) == (ErrorView::Unsupported {
            feature: "Sandbox::metrics"@,
            available_when: "when cloud metrics land"@,
        }),
        refused_operation(CloudOperation::MetricsStream) == (ErrorView::Unsupported {
            feature: "Sandbox::metrics_stream"@,
            available_when: "when cloud metrics land"@,
        }),
        refused_operation(CloudOperation::FsRead) == (ErrorView::Unsupported {
            feature: "SandboxFsOps::read"@,
            available_when: "when cloud guest fs lands"@,
        }),
        refused_operation(CloudOperation::FsReadStream) == (ErrorView::Unsupported {
            feature: "SandboxFsOps::read_stream"@,
            available_when: "when cloud guest fs lands"@,
        }),
        refused_operation(CloudOperation::FsWrite) == (ErrorView::Unsupported {
            feature: "SandboxFsOps::write"@,
            available_when: "when cloud guest fs lands"@,
        }),
        refused_operation(CloudOperation::FsWriteStream) == (ErrorView::Unsupported {
            feature: "SandboxFsOps::write_stream"@,
            available_when: "when cloud guest fs lands"@,
        }),
        refused_operation(CloudOperation::FsList) == (ErrorView::Unsupported {
            feature: "SandboxFsOps::list"@,
            available_when: "when cloud guest fs lands"@,
        }),
        refused_operation(CloudOperation::FsStat) == (ErrorView::Unsupported {
            feature: "SandboxFsOps::stat"@,
            available_when: "when cloud guest fs lands"@,
        }),
        refused_operation(CloudOperation::FsMkdir) == (ErrorView::Unsupported {
            feature: "SandboxFsOps::mkdir"@,
            available_when: "when cloud guest fs lands"@,
        }),
        refused_operation(CloudOperation::FsRemove) == (ErrorView::Unsupported {
            feature: "SandboxFsOps::remove"@,
            available_when: "when cloud guest fs lands"@,
        }),
        refused_operation(CloudOperation::FsCopy) == (ErrorView::Unsupported {
            feature: "SandboxFsOps::copy"@,
            available_when: "when cloud guest fs lands"@,
        }),
        refused_operation(CloudOperation::FsRename) == (ErrorView::Unsupported {
            feature: "SandboxFsOps::rename"@,
            available_when: "when cloud guest fs lands"@,
        }),
        refused_operation(CloudOperation::FsExists) == (ErrorView::Unsupported {
            feature: "SandboxFsOps::exists"@,
            available_when: "when cloud guest fs lands"@,
        }),
        refused_operation(CloudOperation::FsCopyFromHost) == (ErrorView::Unsupported {
            feature: "SandboxFsOps::copy_from_host"@,
            available_when: "when cloud guest fs lands"@,
        }),
        refused_operation(CloudOperation::FsCopyToHost) == (ErrorView::Unsupported {
            feature: "SandboxFsOps::copy_to_host"@,
            available_when: "when cloud guest fs lands"@,
        }),
{
}

/// A configuration that the cloud refuses is refused by a name for something that it really asks
/// for, with the time at which that will be there.
pub proof fn refused_configurations_say_why(config: SandboxConfig)
    requires
        cloud_refusal(config) is Some,
    ensures
        ({
            let refusal = cloud_refusal(config)->0;
            ||| refusal == (ErrorView::Unsupported {
                feature: "mounts"@,
                available_when: "when cloud volumes ship"@,
            }) && (config.spec.mounts@.len() > 0)
            ||| refusal == (ErrorView::Unsupported {
                feature: "patches"@,
                available_when: "when cloud volumes ship"@,
            }) && (config.spec.patches@.len() > 0)
            ||| refusal == (ErrorView::Unsupported {
                feature: "rlimits"@,
                available_when: "when rlimits land on the cloud API"@,
            }) && (config.spec.rlimits@.len() > 0)
            ||| refusal == (ErrorView::Unsupported {
                feature: "cmd"@,
                available_when: "when cmd lands on the cloud API"@,
            }) && (config.spec.runtime.cmd is Some)
            ||| refusal == (ErrorView::Unsupported {
                feature: ".replace()"@,
                available_when: "when cloud sandbox replace semantics land"@,
            }) && (config.replace_existing)
            ||| refusal == (ErrorView::Unsupported {
                feature: "init"@,
                available_when: "when cloud init wrapper lands"@,
            }) && (config.spec.init is Some)
            ||| refusal == (ErrorView::Unsupported {
                feature: "pull_policy"@,
                available_when: "when cloud pull policy lands"@,
            }) && (config.spec.pull_policy != PullPolicy::IfMissing)
            ||| refusal == (ErrorView::Unsupported {
                feature: "registry_auth"@,
                available_when: "when cloud registry auth lands"@,
            }) && (config.registry_auth is Some)
            ||| refusal == (ErrorView::Unsupported {
                feature: "insecure registries"@,
                available_when: "when cloud insecure-registry support lands"@,
            }) && (config.insecure)
            ||| refusal == (ErrorView::Unsupported {
                feature: "ca_certs"@,
                available_when: "when cloud custom CA certs land"@,
            }) && (config.ca_certs@.len() > 0)
            ||| refusal == (ErrorView::Unsupported {
                feature: "network policy / ports / secrets"@,
                available_when: "when cloud networking ships"@,
            }) && (has_own_network(config.spec.network))
            ||| refusal == (ErrorView::Unsupported {
                feature: "image-from-host-dir"@,
                available_when: "when cloud volumes ship"@,
            }) && (config.spec.image is Bind)
            ||| refusal == (ErrorView::Unsupported {
                feature: "disk-image rootfs"@,
                available_when: "never on cloud"@,
            }) && (config.spec.image is DiskImage)
        }),
{
}

/// Configurations with mounts are refused alike, whatever else they ask for.
pub proof fn mounts_are_refused_first(a: SandboxConfig, b: SandboxConfig)
    requires
        a.spec.mounts@.len() > 0,
        b.spec.mounts@.len() > 0,
    ensures
        cloud_refusal(a) == cloud_refusal(b),
{
}

} // verus!
