//! The command line and launch configuration of a sandbox process.

use vstd::prelude::*;
use vstd::utf8::encode_utf8;

use crate::host_paths::{host_join, host_joined};
use crate::mounts::{
    dir_entry, dir_mount_arg, disk_entry, disk_mount_arg, encode_rlimits, file_entry,
    file_mount_arg, guest_mount_tag, lemma_contains_sum, listed, mount_tag, push_dir_mount_arg, push_dir_mounts_spec,
    push_disk_mount_arg, push_disk_mounts_spec, push_file_mount_arg, push_file_mounts_spec,
    push_tmpfs_spec, rlimits_text, text_of, tmpfs_entry, ResolvedNamedVolume, StagedFileMount,
};
use crate::namemap::NameMap;
use crate::outside::{
    base64url_bytes, base64url_decode, base64url_encode, base64url_text, json_pairs, json_strings,
    pair_views, pairs_json, pairs_to_json, strings_from_json, strings_json, strings_to_json,
};
use crate::text::{
    copy_all, decimal, decimal_text, lemma_decimal_value, lemma_signed_decimal_value,
    natural_value, signed_decimal, signed_text, signed_value, views,
};
use crate::types::{
    DiskImageFormat, EnvVar, HandoffInit, RootfsSource, SandboxConfig, SandboxLogLevel, SecurityProfile,
    VolumeKind, VolumeMount,
};

verus! {

/// The block devices of a sandbox that boots an OCI image.
pub const OCI_BLOCK_ROOT: &'static str =
    "kind=oci-erofs,lower=/dev/vda,upper=/dev/vdb,upper_fstype=ext4";

/// A guest command that runs right after boot.
pub struct StartupCommand {
    pub cmd: String,
    pub args: Vec<String>,
    pub env: Vec<String>,
    pub cwd: Option<String>,
    pub user: Option<String>,
}

/// A reserved slot of the metrics registry.
pub struct MetricsSlot {
    pub shm_name: String,
    pub slot: u32,
    pub generation: u64,
}

/// How the sandbox process samples metrics.
pub struct LaunchMetrics {
    /// Milliseconds between samples; `None` leaves the process's own default.
    pub sample_interval_ms: Option<u64>,
    pub disabled: bool,
    pub slot: Option<MetricsSlot>,
}

/// Where the sandbox process finds the root filesystem.
pub struct LaunchRootfs {
    pub path: Option<String>,
    pub disk: Option<String>,
    pub disk_format: Option<String>,
    pub upper: Option<String>,
}

/// What a sandbox process is launched with, apart from its network: see [`LaunchPayload`].
pub struct LaunchConfig {
    pub db_path: String,
    pub db_connect_timeout_secs: u64,
    pub log_dir: String,
    pub runtime_dir: String,
    pub sandboxes_dir: String,
    pub agent_sock: String,
    pub libkrunfw_path: String,
    pub startup: Option<StartupCommand>,
    pub max_duration_secs: Option<u64>,
    pub idle_timeout_secs: Option<u64>,
    pub workdir: Option<String>,
    pub metrics: LaunchMetrics,
    pub rootfs: LaunchRootfs,
    pub mounts: Vec<String>,
    pub disks: Vec<String>,
    pub env: Vec<String>,
    pub sandbox_slot: u64,
}

/// Everything that the sandbox process reads from its private configuration channel.
pub struct LaunchPayload {
    pub launch: LaunchConfig,
    /// The network of the sandbox as the process decodes it, with its secrets resolved.
    pub network: Option<String>,
}

/// The host paths that a launch needs.
pub struct LaunchPaths {
    pub db_path: String,
    pub log_dir: String,
    pub runtime_dir: String,
    pub sandboxes_dir: String,
    pub agent_sock: String,
    pub libkrunfw_path: String,
    /// The stitched disk of the image's manifest, where the image was resolved to one.
    pub vmdk_path: Option<String>,
}

/// What a launch needs besides the sandbox's own configuration.
pub struct LaunchContext {
    pub sandbox_id: i32,
    pub db_connect_timeout_secs: u64,
    pub paths: LaunchPaths,
    /// Hostname of a sandbox that asks for none.
    pub default_hostname: String,
    /// Guest-write quota of a shared directory that asks for none.
    pub default_bind_quota_mib: u32,
    /// Milliseconds between the metrics samples of a sandbox that asks for no interval.
    pub metrics_interval_ms: u64,
    pub staged: NameMap<StagedFileMount>,
    pub volumes: NameMap<ResolvedNamedVolume>,
    pub metrics_slot: Option<MetricsSlot>,
    pub parent_watch_fd: Option<i32>,
    pub startup_fd: Option<i32>,
    pub startup_pipe: Option<String>,
    /// Whether the host is Windows.
    pub windows: bool,
}

// ------------------------------------------------------------------------------------------------
// The startup command
// ------------------------------------------------------------------------------------------------

/// The list that an optional list stands for.
pub open spec fn list_of(v: Option<Vec<String>>) -> Seq<Seq<char>> {
    match v {
        Some(list) => views(list@),
        None => Seq::empty(),
    }
}

/// An environment variable as `key=value`.
pub open spec fn env_text(var: EnvVar) -> Seq<char> {
    var.key@ + "="@ + var.value@
}

/// Environment variables as `key=value`.
pub open spec fn env_texts(vars: Seq<EnvVar>) -> Seq<Seq<char>> {
    vars.map_values(|v: EnvVar| env_text(v))
}

/// The words that run after boot: the entrypoint followed by the command, when any run at all.
pub open spec fn startup_words(config: SandboxConfig) -> Seq<Seq<char>> {
    if config.startup_command_requested {
        list_of(config.spec.runtime.entrypoint) + list_of(config.spec.runtime.cmd)
    } else {
        Seq::empty()
    }
}

/// The program and arguments that run after boot.
pub fn resolve_startup_command(config: &SandboxConfig) -> (r: Option<(String, Vec<String>)>)
    ensures
        r is None <==> startup_words(*config).len() == 0,
        r matches Some(c) ==> startup_words(*config) == seq![c.0@] + views(c.1@),
{
    if !config.startup_command_requested {
        return None;
    }
    let mut words: Vec<String> = Vec::new();
    if let Some(entrypoint) = &config.spec.runtime.entrypoint {
        words = copy_all(entrypoint);
    }
    assert(views(words@) =~= list_of(config.spec.runtime.entrypoint));
    if let Some(cmd) = &config.spec.runtime.cmd {
        let ghost before = words@;
        let mut more = copy_all(cmd);
        let ghost added = more@;
        words.append(&mut more);
        assert(views(words@) =~= views(before) + views(added));
    }
    assert(views(words@) =~= startup_words(*config));
    if words.len() == 0 {
        return None;
    }
    let ghost all = words@;
    let bin = words.remove(0);
    assert(views(all) =~= seq![bin@] + views(words@));
    Some((bin, words))
}

/// Environment variables as `key=value`.
pub fn env_list(vars: &Vec<EnvVar>) -> (r: Vec<String>)
    ensures
        views(r@) == env_texts(vars@),
{
    let mut out: Vec<String> = Vec::new();
    let mut i: usize = 0;
    while i < vars.len()
        invariant
            i <= vars@.len(),
            views(out@) == env_texts(vars@).take(i as int),
        decreases vars@.len() - i,
    {
        let ghost before = out@;
        let mut text = vars[i].key.clone();
        text.append("=");
        text.append(vars[i].value.as_str());
        let ghost added = text@;
        out.push(text);
        assert(views(out@) =~= views(before).push(added));
        i = i + 1;
        assert(views(out@) =~= env_texts(vars@).take(i as int));
    }
    assert(env_texts(vars@).take(i as int) =~= env_texts(vars@));
    out
}

/// Whether a startup command is the one that the configuration asks for.
pub open spec fn startup_matches(startup: Option<StartupCommand>, config: SandboxConfig) -> bool {
    match startup {
        None => startup_words(config).len() == 0,
        Some(s) => {
            &&& startup_words(config) == seq![s.cmd@] + views(s.args@)
            &&& views(s.env@) == env_texts(config.spec.env@)
            &&& text_of(s.cwd) == text_of(config.spec.runtime.workdir)
            &&& text_of(s.user) == text_of(config.spec.runtime.user)
        },
    }
}

/// A copy of an optional string.
pub fn copy_text(s: &Option<String>) -> (r: Option<String>)
    ensures
        text_of(r) == text_of(*s),
{
    match s {
        Some(t) => Some(t.clone()),
        None => None,
    }
}

/// The guest command that runs right after boot, if there is any.
pub fn startup_command(config: &SandboxConfig) -> (r: Option<StartupCommand>)
    ensures
        startup_matches(r, *config),
{
    match resolve_startup_command(config) {
        None => None,
        Some((cmd, args)) => Some(
            StartupCommand {
                cmd,
                args,
                env: env_list(&config.spec.env),
                cwd: copy_text(&config.spec.runtime.workdir),
                user: copy_text(&config.spec.runtime.user),
            },
        ),
    }
}

// ------------------------------------------------------------------------------------------------
// The visible command line
// ------------------------------------------------------------------------------------------------

/// The verbosity flag of a level.
pub open spec fn level_flag(level: SandboxLogLevel) -> Seq<char> {
    match level {
        SandboxLogLevel::Error => "--error"@,
        SandboxLogLevel::Warn => "--warn"@,
        SandboxLogLevel::Info => "--info"@,
        SandboxLogLevel::Debug => "--debug"@,
        SandboxLogLevel::Trace => "--trace"@,
    }
}

/// The verbosity flag of a level.
pub fn sandbox_log_level_cli_flag(level: SandboxLogLevel) -> (r: &'static str)
    ensures
        r@ == level_flag(level),
{
    match level {
        SandboxLogLevel::Error => "--error",
        SandboxLogLevel::Warn => "--warn",
        SandboxLogLevel::Info => "--info",
        SandboxLogLevel::Debug => "--debug",
        SandboxLogLevel::Trace => "--trace",
    }
}

/// A flag and its value.
pub open spec fn flag(name: Seq<char>, value: Seq<char>) -> Seq<Seq<char>> {
    seq![name, value]
}

/// A flag and its value, where there is one.
pub open spec fn optional_flag(name: Seq<char>, value: Option<Seq<char>>) -> Seq<Seq<char>> {
    match value {
        Some(v) => flag(name, v),
        None => Seq::empty(),
    }
}

/// A descriptor number in decimal, where there is one.
pub open spec fn fd_text(fd: Option<i32>) -> Option<Seq<char>> {
    match fd {
        Some(n) => Some(signed_decimal(n as int)),
        None => None,
    }
}

/// A number in decimal, where it exceeds `floor`.
pub open spec fn above(n: nat, floor: nat) -> Option<Seq<char>> {
    if n > floor {
        Some(decimal(n))
    } else {
        None
    }
}

/// The arguments that anyone on the host can see: what identifies the sandbox, and its size.
pub open spec fn visible_args(config: SandboxConfig, context: LaunchContext) -> Seq<Seq<char>> {
    let resources = config.spec.resources;
    seq!["sandbox"@] + (match config.spec.runtime.log_level {
        Some(level) => seq![level_flag(level)],
        None => Seq::empty(),
    }) + flag("--name"@, config.spec.name@) + flag(
        "--sandbox-id"@,
        signed_decimal(context.sandbox_id as int),
    ) + optional_flag("--parent-watch-fd"@, fd_text(context.parent_watch_fd)) + optional_flag(
        "--startup-fd"@,
        fd_text(context.startup_fd),
    ) + optional_flag("--startup-pipe"@, text_of(context.startup_pipe)) + flag(
        "--vcpus"@,
        decimal(resources.cpus as nat),
    ) + flag("--memory-mib"@, decimal(resources.memory_mib as nat)) + optional_flag(
        "--max-vcpus"@,
        above(resources.max_cpus as nat, resources.cpus as nat),
    ) + optional_flag(
        "--max-memory-mib"@,
        above(resources.max_memory_mib as nat, resources.memory_mib as nat),
    )
}

/// What the host can see of a sandbox depends on its name, verbosity and size alone: nothing of
/// its environment, mounts, commands or image reaches the command line.
pub proof fn visible_args_hide_the_rest(
    a: SandboxConfig,
    b: SandboxConfig,
    context_a: LaunchContext,
    context_b: LaunchContext,
)
    requires
        a.spec.name@ == b.spec.name@,
        a.spec.runtime.log_level == b.spec.runtime.log_level,
        a.spec.resources == b.spec.resources,
        context_a.sandbox_id == context_b.sandbox_id,
        context_a.parent_watch_fd == context_b.parent_watch_fd,
        context_a.startup_fd == context_b.startup_fd,
        text_of(context_a.startup_pipe) == text_of(context_b.startup_pipe),
    ensures
        visible_args(a, context_a) == visible_args(b, context_b),
{
}

fn push_flag(args: &mut Vec<String>, name: &str, value: String)
    ensures
        views(final(args)@) == views(old(args)@) + flag(name@, value@),
{
    let ghost text = value@;
    args.push(name.to_owned());
    args.push(value);
    assert(views(args@) =~= views(old(args)@) + flag(name@, text));
}

fn visible_arguments(config: &SandboxConfig, context: &LaunchContext) -> (r: Vec<String>)
    ensures
        views(r@) == visible_args(*config, *context),
{
    let mut args: Vec<String> = Vec::new();
    args.push("sandbox".to_owned());
    if let Some(level) = config.spec.runtime.log_level {
        args.push(sandbox_log_level_cli_flag(level).to_owned());
    }
    assert(views(args@) =~= seq!["sandbox"@] + (match config.spec.runtime.log_level {
        Some(level) => seq![level_flag(level)],
        None => Seq::empty(),
    }));
    push_flag(&mut args, "--name", config.spec.name.clone());
    push_flag(&mut args, "--sandbox-id", signed_text(context.sandbox_id as i64));
    let ghost mark = views(args@);
    assert(mark + Seq::<Seq<char>>::empty() =~= mark);
    if let Some(fd) = context.parent_watch_fd {
        push_flag(&mut args, "--parent-watch-fd", signed_text(fd as i64));
    }
    let ghost mark = views(args@);
    assert(mark + Seq::<Seq<char>>::empty() =~= mark);
    if let Some(fd) = context.startup_fd {
        push_flag(&mut args, "--startup-fd", signed_text(fd as i64));
    }
    let ghost mark = views(args@);
    assert(mark + Seq::<Seq<char>>::empty() =~= mark);
    if let Some(pipe) = &context.startup_pipe {
        push_flag(&mut args, "--startup-pipe", pipe.clone());
    }
    let resources = config.spec.resources;
    push_flag(&mut args, "--vcpus", decimal_text(resources.cpus as u64));
    push_flag(&mut args, "--memory-mib", decimal_text(resources.memory_mib as u64));
    let ghost mark = views(args@);
    assert(mark + Seq::<Seq<char>>::empty() =~= mark);
    if resources.max_cpus > resources.cpus {
        push_flag(&mut args, "--max-vcpus", decimal_text(resources.max_cpus as u64));
    }
    let ghost mark = views(args@);
    assert(mark + Seq::<Seq<char>>::empty() =~= mark);
    if resources.max_memory_mib > resources.memory_mib {
        push_flag(&mut args, "--max-memory-mib", decimal_text(resources.max_memory_mib as u64));
    }
    args
}

// ------------------------------------------------------------------------------------------------
// Mounts
// ------------------------------------------------------------------------------------------------

/// The arguments and guest entries of all mounts.
pub struct MountLists {
    pub mounts: Vec<String>,
    pub disks: Vec<String>,
    pub tmpfs: String,
    pub dirs: String,
    pub files: String,
    pub disk_entries: String,
}

/// [`MountLists`] as mathematical values.
pub struct MountListsView {
    pub mounts: Seq<Seq<char>>,
    pub disks: Seq<Seq<char>>,
    pub tmpfs: Seq<char>,
    pub dirs: Seq<char>,
    pub files: Seq<char>,
    pub disk_entries: Seq<char>,
}

impl View for MountLists {
    type V = MountListsView;

    open spec fn view(&self) -> MountListsView {
        MountListsView {
            mounts: views(self.mounts@),
            disks: views(self.disks@),
            tmpfs: self.tmpfs@,
            dirs: self.dirs@,
            files: self.files@,
            disk_entries: self.disk_entries@,
        }
    }
}

impl MountListsView {
    /// No mounts.
    pub open spec fn none() -> Self {
        MountListsView {
            mounts: Seq::empty(),
            disks: Seq::empty(),
            tmpfs: Seq::empty(),
            dirs: Seq::empty(),
            files: Seq::empty(),
            disk_entries: Seq::empty(),
        }
    }

    /// One more mount.
    pub open spec fn plus(self, mount: VolumeMount, context: LaunchContext) -> Self {
        match mount {
            VolumeMount::Bind {
                host,
                guest,
                options,
                stat_virtualization,
                host_permissions,
                quota_mib,
            } => if context.staged@.dom().contains(guest@) {
                let staged = context.staged@[guest@];
                MountListsView {
                    mounts: self.mounts.push(
                        file_mount_arg(
                            staged.tag@,
                            staged.dir@,
                            options,
                            stat_virtualization,
                            host_permissions,
                        ),
                    ),
                    files: listed(
                        self.files,
                        file_entry(staged.tag@, staged.filename@, guest@, options),
                    ),
                    ..self
                }
            } else {
                let quota = match quota_mib {
                    Some(q) => q,
                    None => context.default_bind_quota_mib,
                };
                MountListsView {
                    mounts: self.mounts.push(
                        dir_mount_arg(
                            guest@,
                            host@,
                            options,
                            stat_virtualization,
                            host_permissions,
                            Some(quota),
                        ),
                    ),
                    dirs: listed(self.dirs, dir_entry(guest@, options)),
                    ..self
                }
            },
            VolumeMount::Named {
                name,
                guest,
                create,
                options,
                stat_virtualization,
                host_permissions,
            } => {
                let volume = context.volumes@[name@];
                match volume.kind {
                    VolumeKind::Disk => MountListsView {
                        disks: self.disks.push(
                            disk_mount_arg(
                                mount_tag(guest@),
                                volume.path@,
                                volume.format->0,
                                options,
                            ),
                        ),
                        disk_entries: listed(
                            self.disk_entries,
                            disk_entry(mount_tag(guest@), guest@, text_of(volume.fstype), options),
                        ),
                        ..self
                    },
                    VolumeKind::Directory => MountListsView {
                        mounts: self.mounts.push(
                            dir_mount_arg(
                                guest@,
                                volume.path@,
                                options,
                                stat_virtualization,
                                host_permissions,
                                volume.quota_mib,
                            ),
                        ),
                        dirs: listed(self.dirs, dir_entry(guest@, options)),
                        ..self
                    },
                }
            },
            VolumeMount::Tmpfs { guest, size_mib, options } => MountListsView {
                tmpfs: listed(self.tmpfs, tmpfs_entry(guest@, size_mib, options)),
                ..self
            },
            VolumeMount::DiskImage { host, guest, format, fstype, options } => MountListsView {
                disks: self.disks.push(
                    disk_mount_arg(mount_tag(guest@), host@, format, options),
                ),
                disk_entries: listed(
                    self.disk_entries,
                    disk_entry(mount_tag(guest@), guest@, text_of(fstype), options),
                ),
                ..self
            },
        }
    }

    /// All mounts, in order.
    pub open spec fn of(mounts: Seq<VolumeMount>, context: LaunchContext) -> Self
        decreases mounts.len(),
    {
        if mounts.len() == 0 {
            Self::none()
        } else {
            Self::of(mounts.drop_last(), context).plus(mounts.last(), context)
        }
    }
}

/// Whether a mount's storage is known: a named volume is resolved, and a disk has a format.
pub open spec fn is_resolved(mount: VolumeMount, volumes: Map<Seq<char>, ResolvedNamedVolume>) -> bool {
    match mount {
        VolumeMount::Named { name, .. } => {
            &&& volumes.dom().contains(name@)
            &&& volumes[name@].kind == VolumeKind::Disk ==> volumes[name@].format is Some
        },
        _ => true,
    }
}

/// Whether the storage of every mount is known.
pub open spec fn all_resolved(
    mounts: Seq<VolumeMount>,
    volumes: Map<Seq<char>, ResolvedNamedVolume>,
) -> bool {
    forall|i: int| 0 <= i < mounts.len() ==> is_resolved(#[trigger] mounts[i], volumes)
}

/// Whether the storage of every mount is known.
pub fn mounts_are_resolved(
    mounts: &Vec<VolumeMount>,
    volumes: &NameMap<ResolvedNamedVolume>,
) -> (r: bool)
    ensures
        r == all_resolved(mounts@, volumes@),
{
    let mut i: usize = 0;
    while i < mounts.len()
        invariant
            i <= mounts@.len(),
            forall|k: int| 0 <= k < i ==> is_resolved(#[trigger] mounts@[k], volumes@),
        decreases mounts@.len() - i,
    {
        let resolved = match &mounts[i] {
            VolumeMount::Named { name, .. } => match volumes.get(name.as_str()) {
                Some(volume) => volume.kind != VolumeKind::Disk || volume.format.is_some(),
                None => false,
            },
            _ => true,
        };
        if !resolved {
            assert(!is_resolved(mounts@[i as int], volumes@));
            return false;
        }
        i = i + 1;
    }
    true
}

fn optional_str(s: &Option<String>) -> (r: Option<&str>)
    ensures
        match r {
            Some(t) => text_of(*s) == Some(t@),
            None => text_of(*s) is None,
        },
{
    match s {
        Some(t) => Some(t.as_str()),
        None => None,
    }
}

impl MountLists {
    /// No mounts.
    pub fn new() -> (r: Self)
        ensures
            r@ == MountListsView::none(),
    {
        let r = MountLists {
            mounts: Vec::new(),
            disks: Vec::new(),
            tmpfs: String::new(),
            dirs: String::new(),
            files: String::new(),
            disk_entries: String::new(),
        };
        assert(views(r.mounts@) =~= Seq::empty());
        assert(views(r.disks@) =~= Seq::empty());
        r
    }

    /// Adds one mount.
    pub fn push(&mut self, mount: &VolumeMount, context: &LaunchContext)
        requires
            is_resolved(*mount, context.volumes@),
        ensures
            final(self)@ == old(self)@.plus(*mount, *context),
    {
        match mount {
            VolumeMount::Bind {
                host,
                guest,
                options,
                stat_virtualization,
                host_permissions,
                quota_mib,
            } => {
                match context.staged.get(guest.as_str()) {
                    Some(staged) => {
                        push_file_mount_arg(
                            &mut self.mounts,
                            staged.tag.as_str(),
                            staged.dir.as_str(),
                            *options,
                            *stat_virtualization,
                            *host_permissions,
                        );
                        push_file_mounts_spec(
                            &mut self.files,
                            staged.tag.as_str(),
                            staged.filename.as_str(),
                            guest.as_str(),
                            *options,
                        );
                    },
                    None => {
                        // A shared directory gets a protective guest-write quota.
                        let quota: u32 = match quota_mib {
                            Some(q) => *q,
                            None => context.default_bind_quota_mib,
                        };
                        push_dir_mount_arg(
                            &mut self.mounts,
                            guest.as_str(),
                            host.as_str(),
                            *options,
                            *stat_virtualization,
                            *host_permissions,
                            Some(quota),
                        );
                        push_dir_mounts_spec(&mut self.dirs, guest.as_str(), *options);
                    },
                }
            },
            VolumeMount::Named {
                name,
                guest,
                create: _,
                options,
                stat_virtualization,
                host_permissions,
            } => {
                if let Some(volume) = context.volumes.get(name.as_str()) {
                    match volume.kind {
                        VolumeKind::Disk => {
                            if let Some(format) = &volume.format {
                                let id = guest_mount_tag(guest.as_str());
                                push_disk_mount_arg(
                                    &mut self.disks,
                                    id.as_str(),
                                    volume.path.as_str(),
                                    format,
                                    *options,
                                );
                                push_disk_mounts_spec(
                                    &mut self.disk_entries,
                                    id.as_str(),
                                    guest.as_str(),
                                    optional_str(&volume.fstype),
                                    *options,
                                );
                            }
                        },
                        VolumeKind::Directory => {
                            push_dir_mount_arg(
                                &mut self.mounts,
                                guest.as_str(),
                                volume.path.as_str(),
                                *options,
                                *stat_virtualization,
                                *host_permissions,
                                volume.quota_mib,
                            );
                            push_dir_mounts_spec(&mut self.dirs, guest.as_str(), *options);
                        },
                    }
                }
            },
            VolumeMount::Tmpfs { guest, size_mib, options } => {
                push_tmpfs_spec(&mut self.tmpfs, guest.as_str(), *size_mib, *options);
            },
            VolumeMount::DiskImage { host, guest, format, fstype, options } => {
                let id = guest_mount_tag(guest.as_str());
                push_disk_mount_arg(
                    &mut self.disks,
                    id.as_str(),
                    host.as_str(),
                    format,
                    *options,
                );
                push_disk_mounts_spec(
                    &mut self.disk_entries,
                    id.as_str(),
                    guest.as_str(),
                    optional_str(fstype),
                    *options,
                );
            },
        }
    }

    /// All mounts, in order.
    pub fn collect(mounts: &Vec<VolumeMount>, context: &LaunchContext) -> (r: Self)
        requires
            all_resolved(mounts@, context.volumes@),
        ensures
            r@ == MountListsView::of(mounts@, *context),
    {
        let mut lists = MountLists::new();
        let mut i: usize = 0;
        while i < mounts.len()
            invariant
                i <= mounts@.len(),
                all_resolved(mounts@, context.volumes@),
                lists@ == MountListsView::of(mounts@.take(i as int), *context),
            decreases mounts@.len() - i,
        {
            assert(mounts@.take(i + 1).drop_last() =~= mounts@.take(i as int));
            lists.push(&mounts[i], context);
            i = i + 1;
        }
        assert(mounts@.take(i as int) =~= mounts@);
        lists
    }
}

// ------------------------------------------------------------------------------------------------
// The launch configuration
// ------------------------------------------------------------------------------------------------

/// An environment entry, where its value is not empty.
pub open spec fn entry_if_any(prefix: Seq<char>, value: Seq<char>) -> Seq<Seq<char>> {
    if value.len() == 0 {
        Seq::empty()
    } else {
        seq![prefix + value]
    }
}

/// An environment entry, where its value is given.
pub open spec fn entry_if_given(prefix: Seq<char>, value: Option<Seq<char>>) -> Seq<Seq<char>> {
    match value {
        Some(v) => seq![prefix + v],
        None => Seq::empty(),
    }
}

/// The guest's description of the block devices that hold the root filesystem.
pub open spec fn block_root(config: SandboxConfig) -> Option<Seq<char>> {
    match config.spec.image {
        RootfsSource::Bind { path } => None,
        RootfsSource::Oci(oci) => if config.manifest_digest is Some {
            Some(OCI_BLOCK_ROOT@)
        } else {
            None
        },
        RootfsSource::DiskImage { path, format, fstype } => Some(
            "kind=disk-image,device=/dev/vda"@ + (match fstype {
                Some(fs) => ",fstype="@ + fs@,
                None => Seq::empty(),
            }),
        ),
    }
}

/// The name of a security profile.
pub open spec fn profile_text(profile: SecurityProfile) -> Seq<char> {
    match profile {
        SecurityProfile::Default => "default"@,
        SecurityProfile::Restricted => "restricted"@,
    }
}

/// The guest's description of the process that takes over as init.
pub open spec fn handoff_env(
    init: Option<HandoffInit>,
    workdir: Option<Seq<char>>,
) -> Seq<Seq<char>> {
    match init {
        None => Seq::empty(),
        Some(init) => {
            seq!["MSB_HANDOFF_INIT="@ + init.cmd@] + (if init.args@.len() == 0 {
                Seq::empty()
            } else {
                seq!["MSB_HANDOFF_INIT_ARGS="@ + base64url_text(strings_json(views(init.args@)))]
            }) + entry_if_given("MSB_HANDOFF_INIT_CWD="@, workdir) + (if init.env@.len() == 0 {
                Seq::empty()
            } else {
                seq![
                    "MSB_HANDOFF_INIT_ENV="@ + base64url_text(
                        encode_utf8(pairs_json(pair_views(init.env@))),
                    ),
                ]
            })
        },
    }
}

/// The arguments that a payload stands for, where it stands for any.
pub open spec fn handoff_args(text: Seq<char>) -> Option<Seq<Seq<char>>> {
    match base64url_bytes(text) {
        Some(json) => json_strings(json),
        None => None,
    }
}

/// Whether the guest can read the description back: the payloads decode to what they were made
/// from, the arguments to their list and the environment to its pairs.
pub open spec fn handoff_reads_back(init: Option<HandoffInit>) -> bool {
    match init {
        None => true,
        Some(init) => {
            let args = strings_json(views(init.args@));
            let env = pairs_json(pair_views(init.env@));
            &&& init.args@.len() > 0 ==> handoff_args(base64url_text(args)) == Some(
                views(init.args@),
            )
            &&& init.env@.len() > 0 ==> base64url_bytes(base64url_text(encode_utf8(env))) == Some(
                encode_utf8(env),
            ) && json_pairs(env) == Some(pair_views(init.env@))
        },
    }
}

/// The environment of the guest agent, in order.
pub open spec fn launch_env(config: SandboxConfig, context: LaunchContext) -> Seq<Seq<char>> {
    let lists = MountListsView::of(config.spec.mounts@, context);
    let hostname = match config.spec.runtime.hostname {
        Some(h) => h@,
        None => context.default_hostname@,
    };
    entry_if_given("MSB_BLOCK_ROOT="@, block_root(config)) + entry_if_any(
        "MSB_TMPFS="@,
        lists.tmpfs,
    ) + entry_if_any("MSB_DIR_MOUNTS="@, lists.dirs) + entry_if_any(
        "MSB_FILE_MOUNTS="@,
        lists.files,
    ) + entry_if_any("MSB_DISK_MOUNTS="@, lists.disk_entries) + (if config.spec.rlimits@.len() == 0 {
        Seq::empty()
    } else {
        seq!["MSB_RLIMITS="@ + rlimits_text(config.spec.rlimits@)]
    }) + env_texts(config.spec.env@) + entry_if_given(
        "MSB_USER="@,
        text_of(config.spec.runtime.user),
    ) + seq![
        "MSB_SECURITY_PROFILE="@ + profile_text(config.spec.security_profile),
        "MSB_HOSTNAME="@ + hostname,
    ] + handoff_env(config.spec.init, text_of(config.spec.runtime.workdir))
}

/// Where the root filesystem of a configuration is found.
pub open spec fn rootfs_matches(
    rootfs: LaunchRootfs,
    config: SandboxConfig,
    context: LaunchContext,
) -> bool {
    match config.spec.image {
        RootfsSource::Bind { path } => {
            &&& text_of(rootfs.path) == Some(path@)
            &&& rootfs.disk is None && rootfs.disk_format is None && rootfs.upper is None
        },
        RootfsSource::Oci(oci) => {
            &&& rootfs.path is None
            &&& if config.manifest_digest is Some {
                &&& text_of(rootfs.disk) == text_of(context.paths.vmdk_path)
                &&& text_of(rootfs.disk_format) == Some("vmdk"@)
                &&& text_of(rootfs.upper) == Some(
                    host_joined(
                        host_joined(
                            context.paths.sandboxes_dir@,
                            config.spec.name@,
                            context.windows,
                        ),
                        "upper.ext4"@,
                        context.windows,
                    ),
                )
            } else {
                rootfs.disk is None && rootfs.disk_format is None && rootfs.upper is None
            }
        },
        RootfsSource::DiskImage { path, format, fstype } => {
            &&& rootfs.path is None && rootfs.upper is None
            &&& text_of(rootfs.disk) == Some(path@)
            &&& text_of(rootfs.disk_format) == Some(format.text())
        },
    }
}

/// How the metrics of a configuration are sampled.
pub open spec fn metrics_match(
    metrics: LaunchMetrics,
    config: SandboxConfig,
    context: LaunchContext,
) -> bool {
    &&& metrics.sample_interval_ms == config.spec.runtime.metrics_interval(context.metrics_interval_ms)
    &&& metrics.disabled == (config.spec.runtime.metrics_interval(context.metrics_interval_ms) is None)
    &&& match (metrics.slot, context.metrics_slot) {
        (None, None) => true,
        (Some(a), Some(b)) => a.shm_name@ == b.shm_name@ && a.slot == b.slot && a.generation
            == b.generation,
        _ => false,
    }
}

/// Whether a launch configuration carries a sandbox's configuration into its process.
pub open spec fn launch_matches(
    launch: LaunchConfig,
    config: SandboxConfig,
    context: LaunchContext,
) -> bool {
    let lists = MountListsView::of(config.spec.mounts@, context);
    &&& launch.db_path@ == context.paths.db_path@
    &&& launch.db_connect_timeout_secs == context.db_connect_timeout_secs
    &&& launch.log_dir@ == context.paths.log_dir@
    &&& launch.runtime_dir@ == context.paths.runtime_dir@
    &&& launch.sandboxes_dir@ == context.paths.sandboxes_dir@
    &&& launch.agent_sock@ == context.paths.agent_sock@
    &&& launch.libkrunfw_path@ == context.paths.libkrunfw_path@
    &&& startup_matches(launch.startup, config)
    &&& launch.max_duration_secs == config.spec.lifecycle.max_duration_secs
    &&& launch.idle_timeout_secs == config.spec.lifecycle.idle_timeout_secs
    &&& text_of(launch.workdir) == text_of(config.spec.runtime.workdir)
    &&& metrics_match(launch.metrics, config, context)
    &&& rootfs_matches(launch.rootfs, config, context)
    &&& views(launch.mounts@) == lists.mounts
    &&& views(launch.disks@) == lists.disks
    &&& views(launch.env@) == launch_env(config, context)
    &&& launch.sandbox_slot == context.sandbox_id as u64
}

/// Every environment variable of a sandbox reaches its guest.
pub proof fn environment_reaches_the_guest(
    config: SandboxConfig,
    context: LaunchContext,
    i: int,
)
    requires
        0 <= i < config.spec.env@.len(),
    ensures
        launch_env(config, context).contains(env_text(config.spec.env@[i])),
{
    let lists = MountListsView::of(config.spec.mounts@, context);
    let front = entry_if_given("MSB_BLOCK_ROOT="@, block_root(config)) + entry_if_any(
        "MSB_TMPFS="@,
        lists.tmpfs,
    ) + entry_if_any("MSB_DIR_MOUNTS="@, lists.dirs) + entry_if_any(
        "MSB_FILE_MOUNTS="@,
        lists.files,
    ) + entry_if_any("MSB_DISK_MOUNTS="@, lists.disk_entries) + (if config.spec.rlimits@.len() == 0 {
        Seq::empty()
    } else {
        seq!["MSB_RLIMITS="@ + rlimits_text(config.spec.rlimits@)]
    });
    assert(launch_env(config, context)[front.len() + i] == env_text(config.spec.env@[i]));
}

/// A disk is never handed to the guest as a shared directory, and a directory never as a disk.
pub proof fn volume_kinds_keep_apart(
    lists: MountListsView,
    mount: VolumeMount,
    context: LaunchContext,
)
    requires
        mount is Named,
    ensures
        context.volumes@[mount->Named_name@].kind == VolumeKind::Disk ==> lists.plus(
            mount,
            context,
        ).mounts == lists.mounts && lists.plus(mount, context).dirs == lists.dirs,
        context.volumes@[mount->Named_name@].kind == VolumeKind::Directory ==> lists.plus(
            mount,
            context,
        ).disks == lists.disks && lists.plus(mount, context).disk_entries == lists.disk_entries,
{
}

/// Encodes a handoff payload as printable text.
pub fn encode_handoff_json(json: &[u8]) -> (r: String)
    ensures
        r@ == base64url_text(json@),
        base64url_bytes(r@) == Some(json@),
{
    base64url_encode(json)
}

fn push_entry(env: &mut Vec<String>, prefix: &str, value: &str)
    ensures
        views(final(env)@) == views(old(env)@) + seq![prefix@ + value@],
{
    let mut entry = prefix.to_owned();
    entry.append(value);
    let ghost text = entry@;
    env.push(entry);
    assert(views(env@) =~= views(old(env)@) + seq![text]);
}

fn push_entry_if_any(env: &mut Vec<String>, prefix: &str, value: &str)
    ensures
        views(final(env)@) == views(old(env)@) + entry_if_any(prefix@, value@),
{
    if !value.is_empty() {
        push_entry(env, prefix, value);
    }
    assert(views(old(env)@) + Seq::<Seq<char>>::empty() =~= views(old(env)@));
}

fn push_entry_if_given(env: &mut Vec<String>, prefix: &str, value: &Option<String>)
    ensures
        views(final(env)@) == views(old(env)@) + entry_if_given(prefix@, text_of(*value)),
{
    if let Some(v) = value {
        push_entry(env, prefix, v.as_str());
    }
    assert(views(old(env)@) + Seq::<Seq<char>>::empty() =~= views(old(env)@));
}

/// Reads the arguments of a payload, as the guest does.
pub fn decode_handoff_args(text: &str) -> (r: Option<Vec<String>>)
    ensures
        r is Some <==> handoff_args(text@) is Some,
        r matches Some(args) ==> handoff_args(text@) == Some(views(args@)),
{
    match base64url_decode(text) {
        Some(json) => strings_from_json(json.as_slice()),
        None => None,
    }
}

fn push_handoff(env: &mut Vec<String>, init: &Option<HandoffInit>, workdir: &Option<String>)
    ensures
        views(final(env)@) == views(old(env)@) + handoff_env(*init, text_of(*workdir)),
        handoff_reads_back(*init),
{
    let ghost start = views(env@);
    if let Some(init) = init {
        push_entry(env, "MSB_HANDOFF_INIT=", init.cmd.as_str());
        if init.args.len() > 0 {
            let json = strings_to_json(&init.args);
            let text = encode_handoff_json(json.as_slice());
            push_entry(env, "MSB_HANDOFF_INIT_ARGS=", text.as_str());
        }
        push_entry_if_given(env, "MSB_HANDOFF_INIT_CWD=", workdir);
        if init.env.len() > 0 {
            let json = pairs_to_json(&init.env);
            let text = encode_handoff_json(json.as_str().as_bytes());
            push_entry(env, "MSB_HANDOFF_INIT_ENV=", text.as_str());
        }
    }
    assert(views(env@) =~= start + handoff_env(*init, text_of(*workdir)));
}

fn block_root_text(config: &SandboxConfig) -> (r: Option<String>)
    ensures
        text_of(r) == block_root(*config),
{
    match &config.spec.image {
        RootfsSource::Bind { .. } => None,
        RootfsSource::Oci(_) => {
            if config.manifest_digest.is_some() {
                Some(OCI_BLOCK_ROOT.to_owned())
            } else {
                None
            }
        },
        RootfsSource::DiskImage { fstype, .. } => {
            let mut text = "kind=disk-image,device=/dev/vda".to_owned();
            if let Some(fs) = fstype {
                text.append(",fstype=");
                text.append(fs.as_str());
            }
            assert(text@ =~= block_root(*config)->0);
            Some(text)
        },
    }
}

fn agent_environment(
    config: &SandboxConfig,
    context: &LaunchContext,
    lists: &MountLists,
) -> (r: Vec<String>)
    requires
        lists@ == MountListsView::of(config.spec.mounts@, *context),
    ensures
        views(r@) == launch_env(*config, *context),
        handoff_reads_back(config.spec.init),
{
    let mut env: Vec<String> = Vec::new();
    assert(views(env@) =~= Seq::<Seq<char>>::empty());
    let root = block_root_text(config);
    push_entry_if_given(&mut env, "MSB_BLOCK_ROOT=", &root);
    assert(views(env@) =~= entry_if_given("MSB_BLOCK_ROOT="@, block_root(*config)));
    push_entry_if_any(&mut env, "MSB_TMPFS=", lists.tmpfs.as_str());
    push_entry_if_any(&mut env, "MSB_DIR_MOUNTS=", lists.dirs.as_str());
    push_entry_if_any(&mut env, "MSB_FILE_MOUNTS=", lists.files.as_str());
    push_entry_if_any(&mut env, "MSB_DISK_MOUNTS=", lists.disk_entries.as_str());
    let ghost mark = views(env@);
    assert(mark + Seq::<Seq<char>>::empty() =~= mark);
    if config.spec.rlimits.len() > 0 {
        let limits = encode_rlimits(config.spec.rlimits.as_slice());
        push_entry(&mut env, "MSB_RLIMITS=", limits.as_str());
    }
    let ghost before = env@;
    let mut vars = env_list(&config.spec.env);
    let ghost added = vars@;
    env.append(&mut vars);
    assert(views(env@) =~= views(before) + views(added));
    push_entry_if_given(&mut env, "MSB_USER=", &config.spec.runtime.user);
    let ghost mark = views(env@);
    push_entry(
        &mut env,
        "MSB_SECURITY_PROFILE=",
        match config.spec.security_profile {
            SecurityProfile::Default => "default",
            SecurityProfile::Restricted => "restricted",
        },
    );
    let hostname = match &config.spec.runtime.hostname {
        Some(h) => h.as_str(),
        None => context.default_hostname.as_str(),
    };
    push_entry(&mut env, "MSB_HOSTNAME=", hostname);
    assert(views(env@) =~= mark + seq![
        "MSB_SECURITY_PROFILE="@ + profile_text(config.spec.security_profile),
        "MSB_HOSTNAME="@ + hostname@,
    ]);
    push_handoff(&mut env, &config.spec.init, &config.spec.runtime.workdir);
    env
}

fn launch_rootfs(config: &SandboxConfig, context: &LaunchContext) -> (r: LaunchRootfs)
    ensures
        rootfs_matches(r, *config, *context),
{
    match &config.spec.image {
        RootfsSource::Bind { path } => LaunchRootfs {
            path: Some(path.clone()),
            disk: None,
            disk_format: None,
            upper: None,
        },
        RootfsSource::Oci(_) => {
            if config.manifest_digest.is_some() {
                let sandbox_dir = host_join(
                    context.paths.sandboxes_dir.as_str(),
                    config.spec.name.as_str(),
                    context.windows,
                );
                LaunchRootfs {
                    path: None,
                    disk: copy_text(&context.paths.vmdk_path),
                    disk_format: Some("vmdk".to_owned()),
                    upper: Some(host_join(sandbox_dir.as_str(), "upper.ext4", context.windows)),
                }
            } else {
                LaunchRootfs { path: None, disk: None, disk_format: None, upper: None }
            }
        },
        RootfsSource::DiskImage { path, format, .. } => LaunchRootfs {
            path: None,
            disk: Some(path.clone()),
            disk_format: Some(format.as_str().to_owned()),
            upper: None,
        },
    }
}

fn launch_metrics(config: &SandboxConfig, context: &LaunchContext) -> (r: LaunchMetrics)
    ensures
        metrics_match(r, *config, *context),
{
    let interval = config.effective_metrics_interval(context.metrics_interval_ms);
    LaunchMetrics {
        sample_interval_ms: interval,
        disabled: interval.is_none(),
        slot: match &context.metrics_slot {
            None => None,
            Some(slot) => Some(
                MetricsSlot {
                    shm_name: slot.shm_name.clone(),
                    slot: slot.slot,
                    generation: slot.generation,
                },
            ),
        },
    }
}

/// Builds the command line and the launch configuration of a sandbox process.
///
/// The command line holds what lets an operator tell sandboxes apart. Everything bulky,
/// structured or secret goes into the launch configuration, which travels over a private
/// channel; [`launch_payload`] puts the network beside it.
pub fn sandbox_cli_args(config: &SandboxConfig, context: &LaunchContext) -> (r: (
    Vec<String>,
    LaunchConfig,
))
    requires
        all_resolved(config.spec.mounts@, context.volumes@),
        config.spec.image is Oci && config.manifest_digest is Some
            ==> context.paths.vmdk_path is Some,
    ensures
        views(r.0@) == visible_args(*config, *context),
        launch_matches(r.1, *config, *context),
        handoff_reads_back(config.spec.init),
{
    let visible = visible_arguments(config, context);
    let lists = MountLists::collect(&config.spec.mounts, context);
    let env = agent_environment(config, context, &lists);
    let launch = LaunchConfig {
        db_path: context.paths.db_path.clone(),
        db_connect_timeout_secs: context.db_connect_timeout_secs,
        log_dir: context.paths.log_dir.clone(),
        runtime_dir: context.paths.runtime_dir.clone(),
        sandboxes_dir: context.paths.sandboxes_dir.clone(),
        agent_sock: context.paths.agent_sock.clone(),
        libkrunfw_path: context.paths.libkrunfw_path.clone(),
        startup: startup_command(config),
        max_duration_secs: config.spec.lifecycle.max_duration_secs,
        idle_timeout_secs: config.spec.lifecycle.idle_timeout_secs,
        workdir: copy_text(&config.spec.runtime.workdir),
        metrics: launch_metrics(config, context),
        rootfs: launch_rootfs(config, context),
        mounts: lists.mounts,
        disks: lists.disks,
        env,
        sandbox_slot: context.sandbox_id as u64,
    };
    (visible, launch)
}

/// Builds the command line of a sandbox process and everything that it reads from its private
/// configuration channel.
///
/// `network` is the network of the sandbox as the process decodes it. It may hold resolved
/// secrets, so it travels over the private channel and no argument depends on it.
pub fn launch_payload(
    config: &SandboxConfig,
    context: &LaunchContext,
    network: Option<String>,
) -> (r: (Vec<String>, LaunchPayload))
    requires
        all_resolved(config.spec.mounts@, context.volumes@),
        config.spec.image is Oci && config.manifest_digest is Some
            ==> context.paths.vmdk_path is Some,
    ensures
        views(r.0@) == visible_args(*config, *context),
        launch_matches(r.1.launch, *config, *context),
        handoff_reads_back(config.spec.init),
        text_of(r.1.network) == text_of(network),
{
    let (visible, launch) = sandbox_cli_args(config, context);
    (visible, LaunchPayload { launch, network })
}

// ------------------------------------------------------------------------------------------------
// What the sandbox process can read
// ------------------------------------------------------------------------------------------------

/// Whether a word of a command line stands for itself; every other option takes the word behind
/// it.
pub open spec fn is_switch(word: Seq<char>) -> bool {
    word == "--error"@ || word == "--warn"@ || word == "--info"@ || word == "--debug"@ || word
        == "--trace"@
}

/// The value of an option, as the words of a command line are read from the front.
pub open spec fn option_value(words: Seq<Seq<char>>, name: Seq<char>) -> Option<Seq<char>>
    decreases words.len(),
{
    if words.len() == 0 {
        None
    } else if is_switch(words[0]) {
        option_value(words.skip(1), name)
    } else if words.len() == 1 {
        None
    } else if words[0] == name {
        Some(words[1])
    } else {
        option_value(words.skip(2), name)
    }
}

proof fn lemma_names_differ()
    ensures
        "--name"@ != "--sandbox-id"@,
        "--name"@ != "--parent-watch-fd"@,
        "--name"@ != "--startup-fd"@,
        "--name"@ != "--startup-pipe"@,
        "--name"@ != "--vcpus"@,
        "--name"@ != "--memory-mib"@,
        "--name"@ != "--max-vcpus"@,
        "--name"@ != "--max-memory-mib"@,
        "--sandbox-id"@ != "--parent-watch-fd"@,
        "--sandbox-id"@ != "--startup-fd"@,
        "--sandbox-id"@ != "--startup-pipe"@,
        "--sandbox-id"@ != "--vcpus"@,
        "--sandbox-id"@ != "--memory-mib"@,
        "--sandbox-id"@ != "--max-vcpus"@,
        "--sandbox-id"@ != "--max-memory-mib"@,
        "--parent-watch-fd"@ != "--startup-fd"@,
        "--parent-watch-fd"@ != "--startup-pipe"@,
        "--parent-watch-fd"@ != "--vcpus"@,
        "--parent-watch-fd"@ != "--memory-mib"@,
        "--parent-watch-fd"@ != "--max-vcpus"@,
        "--parent-watch-fd"@ != "--max-memory-mib"@,
        "--startup-fd"@ != "--startup-pipe"@,
        "--startup-fd"@ != "--vcpus"@,
        "--startup-fd"@ != "--memory-mib"@,
        "--startup-fd"@ != "--max-vcpus"@,
        "--startup-fd"@ != "--max-memory-mib"@,
        "--startup-pipe"@ != "--vcpus"@,
        "--startup-pipe"@ != "--memory-mib"@,
        "--startup-pipe"@ != "--max-vcpus"@,
        "--startup-pipe"@ != "--max-memory-mib"@,
        "--vcpus"@ != "--memory-mib"@,
        "--vcpus"@ != "--max-vcpus"@,
        "--vcpus"@ != "--max-memory-mib"@,
        "--memory-mib"@ != "--max-vcpus"@,
        "--memory-mib"@ != "--max-memory-mib"@,
        "--max-vcpus"@ != "--max-memory-mib"@,
        !is_switch("--name"@),
        !is_switch("--sandbox-id"@),
        !is_switch("--parent-watch-fd"@),
        !is_switch("--startup-fd"@),
        !is_switch("--startup-pipe"@),
        !is_switch("--vcpus"@),
        !is_switch("--memory-mib"@),
        !is_switch("--max-vcpus"@),
        !is_switch("--max-memory-mib"@),
{
    reveal_strlit("--name");
    reveal_strlit("--sandbox-id");
    reveal_strlit("--parent-watch-fd");
    reveal_strlit("--startup-fd");
    reveal_strlit("--startup-pipe");
    reveal_strlit("--vcpus");
    reveal_strlit("--memory-mib");
    reveal_strlit("--max-vcpus");
    reveal_strlit("--max-memory-mib");
    reveal_strlit("--error");
    reveal_strlit("--warn");
    reveal_strlit("--info");
    reveal_strlit("--debug");
    reveal_strlit("--trace");
    assert("--name"@[2] != "--warn"@[2]);
    assert("--name"@[2] != "--info"@[2]);
    assert("--sandbox-id"@[3] != "--startup-fd"@[3]);
    assert("--sandbox-id"@[2] != "--memory-mib"@[2]);
    assert("--startup-fd"@[2] != "--memory-mib"@[2]);
    assert("--vcpus"@[2] != "--error"@[2]);
    assert("--vcpus"@[2] != "--debug"@[2]);
    assert("--vcpus"@[2] != "--trace"@[2]);
    assert("--error"@[2] != "--debug"@[2]);
    assert("--error"@[2] != "--trace"@[2]);
    assert("--warn"@[2] != "--info"@[2]);
    assert("--debug"@[2] != "--trace"@[2]);
    assert("--name"@.len() == 6);
    assert("--sandbox-id"@.len() == 12);
    assert("--parent-watch-fd"@.len() == 17);
    assert("--startup-fd"@.len() == 12);
    assert("--startup-pipe"@.len() == 14);
    assert("--vcpus"@.len() == 7);
    assert("--memory-mib"@.len() == 12);
    assert("--max-vcpus"@.len() == 11);
    assert("--max-memory-mib"@.len() == 16);
    assert("--error"@.len() == 7);
    assert("--warn"@.len() == 6);
    assert("--info"@.len() == 6);
    assert("--debug"@.len() == 7);
    assert("--trace"@.len() == 7);
}

proof fn lemma_flag(name: Seq<char>, value: Seq<char>, rest: Seq<Seq<char>>, asked: Seq<char>)
    requires
        !is_switch(name),
    ensures
        option_value(flag(name, value) + rest, asked) == if name == asked {
            Some(value)
        } else {
            option_value(rest, asked)
        },
{
    let words = flag(name, value) + rest;
    assert(words[0] == name && words[1] == value);
    assert(words.skip(2) =~= rest);
}

proof fn lemma_optional_flag(
    name: Seq<char>,
    value: Option<Seq<char>>,
    rest: Seq<Seq<char>>,
    asked: Seq<char>,
)
    requires
        !is_switch(name),
    ensures
        option_value(optional_flag(name, value) + rest, asked) == if name == asked && value is Some {
            value
        } else {
            option_value(rest, asked)
        },
{
    match value {
        Some(v) => {
            lemma_flag(name, v, rest, asked);
        },
        None => {
            assert(optional_flag(name, value) + rest =~= rest);
        },
    }
}

proof fn lemma_regroup(
    l: Seq<Seq<char>>,
    f1: Seq<Seq<char>>,
    f2: Seq<Seq<char>>,
    f3: Seq<Seq<char>>,
    f4: Seq<Seq<char>>,
    f5: Seq<Seq<char>>,
    f6: Seq<Seq<char>>,
    f7: Seq<Seq<char>>,
    f8: Seq<Seq<char>>,
    f9: Seq<Seq<char>>,
    first: Seq<char>,
)
    ensures
        (seq![first] + l + f1 + f2 + f3 + f4 + f5 + f6 + f7 + f8 + f9).skip(1) == l + (f1 + (f2 + (
        f3 + (f4 + (f5 + (f6 + (f7 + (f8 + f9)))))))),
{
    let s = seq![first];
    let t8 = f8 + f9;
    let t7 = f7 + t8;
    let t6 = f6 + t7;
    let t5 = f5 + t6;
    let t4 = f4 + t5;
    let t3 = f3 + t4;
    let t2 = f2 + t3;
    let t1 = f1 + t2;
    let h0 = s + l;
    let h1 = h0 + f1;
    let h2 = h1 + f2;
    let h3 = h2 + f3;
    let h4 = h3 + f4;
    let h5 = h4 + f5;
    let h6 = h5 + f6;
    let h7 = h6 + f7;
    assert(h7 + f8 + f9 =~= h7 + t8);
    assert(h6 + f7 + t8 =~= h6 + t7);
    assert(h5 + f6 + t7 =~= h5 + t6);
    assert(h4 + f5 + t6 =~= h4 + t5);
    assert(h3 + f4 + t5 =~= h3 + t4);
    assert(h2 + f3 + t4 =~= h2 + t3);
    assert(h1 + f2 + t3 =~= h1 + t2);
    assert(h0 + f1 + t2 =~= h0 + t1);
    assert((s + l + t1).skip(1) =~= l + t1);
}

proof fn lemma_walk_sizes(
    cpus: nat,
    memory: nat,
    max_cpus: Option<Seq<char>>,
    max_memory: Option<Seq<char>>,
    asked: Seq<char>,
)
    ensures
        option_value(
            flag("--vcpus"@, decimal(cpus)) + (flag("--memory-mib"@, decimal(memory)) + (
            optional_flag("--max-vcpus"@, max_cpus) + optional_flag(
                "--max-memory-mib"@,
                max_memory,
            ))),
            asked,
        ) == if asked == "--vcpus"@ {
            Some(decimal(cpus))
        } else if asked == "--memory-mib"@ {
            Some(decimal(memory))
        } else if asked == "--max-vcpus"@ {
            max_cpus
        } else if asked == "--max-memory-mib"@ {
            max_memory
        } else {
            None
        },
{
    lemma_names_differ();
    let none = Seq::<Seq<char>>::empty();
    let a9 = optional_flag("--max-memory-mib"@, max_memory);
    assert(a9 + none =~= a9);
    lemma_optional_flag("--max-memory-mib"@, max_memory, none, asked);
    let a8 = optional_flag("--max-vcpus"@, max_cpus) + a9;
    lemma_optional_flag("--max-vcpus"@, max_cpus, a9, asked);
    let a7 = flag("--memory-mib"@, decimal(memory)) + a8;
    lemma_flag("--memory-mib"@, decimal(memory), a8, asked);
    lemma_flag("--vcpus"@, decimal(cpus), a7, asked);
}

proof fn lemma_visible(config: SandboxConfig, context: LaunchContext, asked: Seq<char>)
    ensures
        option_value(visible_args(config, context).skip(1), asked) == if asked == "--name"@ {
            Some(config.spec.name@)
        } else if asked == "--sandbox-id"@ {
            Some(signed_decimal(context.sandbox_id as int))
        } else if asked == "--parent-watch-fd"@ {
            fd_text(context.parent_watch_fd)
        } else if asked == "--startup-fd"@ {
            fd_text(context.startup_fd)
        } else if asked == "--startup-pipe"@ {
            text_of(context.startup_pipe)
        } else if asked == "--vcpus"@ {
            Some(decimal(config.spec.resources.cpus as nat))
        } else if asked == "--memory-mib"@ {
            Some(decimal(config.spec.resources.memory_mib as nat))
        } else if asked == "--max-vcpus"@ {
            above(config.spec.resources.max_cpus as nat, config.spec.resources.cpus as nat)
        } else if asked == "--max-memory-mib"@ {
            above(
                config.spec.resources.max_memory_mib as nat,
                config.spec.resources.memory_mib as nat,
            )
        } else {
            None
        },
{
    lemma_names_differ();
    let resources = config.spec.resources;
    let max_cpus = above(resources.max_cpus as nat, resources.cpus as nat);
    let max_memory = above(resources.max_memory_mib as nat, resources.memory_mib as nat);
    let l: Seq<Seq<char>> = match config.spec.runtime.log_level {
        Some(level) => seq![level_flag(level)],
        None => Seq::empty(),
    };
    let f1 = flag("--name"@, config.spec.name@);
    let f2 = flag("--sandbox-id"@, signed_decimal(context.sandbox_id as int));
    let f3 = optional_flag("--parent-watch-fd"@, fd_text(context.parent_watch_fd));
    let f4 = optional_flag("--startup-fd"@, fd_text(context.startup_fd));
    let f5 = optional_flag("--startup-pipe"@, text_of(context.startup_pipe));
    let f6 = flag("--vcpus"@, decimal(resources.cpus as nat));
    let f7 = flag("--memory-mib"@, decimal(resources.memory_mib as nat));
    let f8 = optional_flag("--max-vcpus"@, max_cpus);
    let f9 = optional_flag("--max-memory-mib"@, max_memory);
    lemma_regroup(l, f1, f2, f3, f4, f5, f6, f7, f8, f9, "sandbox"@);
    let a6 = f6 + (f7 + (f8 + f9));
    let a5 = f5 + a6;
    let a4 = f4 + a5;
    let a3 = f3 + a4;
    let a2 = f2 + a3;
    let a1 = f1 + a2;
    lemma_walk_sizes(
        resources.cpus as nat,
        resources.memory_mib as nat,
        max_cpus,
        max_memory,
        asked,
    );
    lemma_optional_flag("--startup-pipe"@, text_of(context.startup_pipe), a6, asked);
    lemma_optional_flag("--startup-fd"@, fd_text(context.startup_fd), a5, asked);
    lemma_optional_flag("--parent-watch-fd"@, fd_text(context.parent_watch_fd), a4, asked);
    lemma_flag("--sandbox-id"@, signed_decimal(context.sandbox_id as int), a3, asked);
    lemma_flag("--name"@, config.spec.name@, a2, asked);
    let words = visible_args(config, context).skip(1);
    assert(words == l + a1);
    match config.spec.runtime.log_level {
        Some(level) => {
            assert(words[0] == level_flag(level));
            assert(is_switch(words[0]));
            assert(words.skip(1) =~= a1);
        },
        None => {
            assert(words =~= a1);
        },
    }
}

/// The command line can be read back: the name, the id and the size of the sandbox stand behind
/// their options, limits that exceed the size are given and others are not, and the descriptors and
/// the pipe are given exactly where there are any.
pub proof fn the_command_line_reads_back(config: SandboxConfig, context: LaunchContext)
    ensures
        ({
            let args = visible_args(config, context);
            let words = args.skip(1);
            let resources = config.spec.resources;
            &&& args[0] == "sandbox"@
            &&& option_value(words, "--name"@) == Some(config.spec.name@)
            &&& option_value(words, "--sandbox-id"@) is Some
            &&& signed_value(option_value(words, "--sandbox-id"@)->0) == Some(
                context.sandbox_id as int,
            )
            &&& option_value(words, "--vcpus"@) is Some
            &&& natural_value(option_value(words, "--vcpus"@)->0) == Some(resources.cpus as nat)
            &&& option_value(words, "--memory-mib"@) is Some
            &&& natural_value(option_value(words, "--memory-mib"@)->0) == Some(
                resources.memory_mib as nat,
            )
            &&& option_value(words, "--max-vcpus"@) is Some <==> resources.max_cpus > resources.cpus
            &&& resources.max_cpus > resources.cpus ==> natural_value(
                option_value(words, "--max-vcpus"@)->0,
            ) == Some(resources.max_cpus as nat)
            &&& option_value(words, "--max-memory-mib"@) is Some <==> resources.max_memory_mib
                > resources.memory_mib
            &&& resources.max_memory_mib > resources.memory_mib ==> natural_value(
                option_value(words, "--max-memory-mib"@)->0,
            ) == Some(resources.max_memory_mib as nat)
            &&& option_value(words, "--parent-watch-fd"@) is Some
                <==> context.parent_watch_fd is Some
            &&& context.parent_watch_fd is Some ==> signed_value(
                option_value(words, "--parent-watch-fd"@)->0,
            ) == Some(context.parent_watch_fd->0 as int)
            &&& option_value(words, "--startup-fd"@) is Some <==> context.startup_fd is Some
            &&& context.startup_fd is Some ==> signed_value(
                option_value(words, "--startup-fd"@)->0,
            ) == Some(context.startup_fd->0 as int)
            &&& option_value(words, "--startup-pipe"@) is Some <==> context.startup_pipe is Some
            &&& context.startup_pipe is Some ==> option_value(words, "--startup-pipe"@) == Some(
                context.startup_pipe->0@,
            )
        }),
{
    lemma_names_differ();
    let resources = config.spec.resources;
    assert(visible_args(config, context)[0] == "sandbox"@);
    lemma_visible(config, context, "--name"@);
    lemma_visible(config, context, "--sandbox-id"@);
    lemma_visible(config, context, "--vcpus"@);
    lemma_visible(config, context, "--memory-mib"@);
    lemma_visible(config, context, "--max-vcpus"@);
    lemma_visible(config, context, "--max-memory-mib"@);
    lemma_visible(config, context, "--parent-watch-fd"@);
    lemma_visible(config, context, "--startup-fd"@);
    lemma_visible(config, context, "--startup-pipe"@);
    lemma_signed_decimal_value(context.sandbox_id as int);
    lemma_decimal_value(resources.cpus as nat);
    lemma_decimal_value(resources.memory_mib as nat);
    lemma_decimal_value(resources.max_cpus as nat);
    lemma_decimal_value(resources.max_memory_mib as nat);
    if let Some(fd) = context.parent_watch_fd {
        lemma_signed_decimal_value(fd as int);
    }
    if let Some(fd) = context.startup_fd {
        lemma_signed_decimal_value(fd as int);
    }
}

/// The verbosity that is asked for is the one that is given, right behind the first word, and each
/// has a word of its own; without one none is given.
pub proof fn verbosity_is_given(config: SandboxConfig, context: LaunchContext)
    ensures
        ({
            let second = visible_args(config, context)[1];
            match config.spec.runtime.log_level {
                Some(SandboxLogLevel::Error) => second == "--error"@,
                Some(SandboxLogLevel::Warn) => second == "--warn"@,
                Some(SandboxLogLevel::Info) => second == "--info"@,
                Some(SandboxLogLevel::Debug) => second == "--debug"@,
                Some(SandboxLogLevel::Trace) => second == "--trace"@,
                None => second == "--name"@,
            }
        }),
{
}

/// The private configuration carries everything that the process needs to find: each path, limit
/// and number stands in its own place.
pub proof fn launches_carry_their_surroundings(
    launch: LaunchConfig,
    config: SandboxConfig,
    context: LaunchContext,
)
    requires
        launch_matches(launch, config, context),
    ensures
        launch.db_path@ == context.paths.db_path@,
        launch.db_connect_timeout_secs == context.db_connect_timeout_secs,
        launch.log_dir@ == context.paths.log_dir@,
        launch.runtime_dir@ == context.paths.runtime_dir@,
        launch.sandboxes_dir@ == context.paths.sandboxes_dir@,
        launch.agent_sock@ == context.paths.agent_sock@,
        launch.libkrunfw_path@ == context.paths.libkrunfw_path@,
        launch.max_duration_secs == config.spec.lifecycle.max_duration_secs,
        launch.idle_timeout_secs == config.spec.lifecycle.idle_timeout_secs,
        text_of(launch.workdir) == text_of(config.spec.runtime.workdir),
        launch.sandbox_slot == context.sandbox_id as u64,
        ({
            let asked = match config.spec.runtime.metrics_sample_interval_ms {
                Some(ms) => ms,
                None => context.metrics_interval_ms,
            };
            let off = config.spec.runtime.disable_metrics_sample || asked == 0;
            &&& launch.metrics.disabled == off
            &&& off ==> launch.metrics.sample_interval_ms is None
            &&& !off ==> launch.metrics.sample_interval_ms == Some(asked)
        }),
        launch.metrics.slot is Some <==> context.metrics_slot is Some,
        context.metrics_slot is Some ==> launch.metrics.slot->0.shm_name@
            == context.metrics_slot->0.shm_name@ && launch.metrics.slot->0.slot
            == context.metrics_slot->0.slot && launch.metrics.slot->0.generation
            == context.metrics_slot->0.generation,
{
}

/// The root filesystem is found where the configuration has it: a directory by its path, a disk by
/// its path and format, an image by its stitched disk with the sandbox's own disk over it.
pub proof fn launches_find_their_root(
    launch: LaunchConfig,
    config: SandboxConfig,
    context: LaunchContext,
)
    requires
        launch_matches(launch, config, context),
    ensures
        match config.spec.image {
            RootfsSource::Bind { path } => text_of(launch.rootfs.path) == Some(path@)
                && launch.rootfs.disk is None && launch.rootfs.upper is None
                && launch.rootfs.disk_format is None,
            RootfsSource::DiskImage { path, format, .. } => text_of(launch.rootfs.disk) == Some(
                path@,
            ) && text_of(launch.rootfs.disk_format) == Some(
                match format {
                    DiskImageFormat::Raw => "raw"@,
                    DiskImageFormat::Qcow2 => "qcow2"@,
                    DiskImageFormat::Vmdk => "vmdk"@,
                },
            ) && launch.rootfs.path is None && launch.rootfs.upper is None,
            RootfsSource::Oci(_) => launch.rootfs.path is None && (config.manifest_digest is Some
                ==> text_of(launch.rootfs.disk) == text_of(context.paths.vmdk_path) && text_of(
                launch.rootfs.disk_format,
            ) == Some("vmdk"@) && text_of(launch.rootfs.upper) == Some(
                host_joined(
                    host_joined(
                        context.paths.sandboxes_dir@,
                        config.spec.name@,
                        context.windows,
                    ),
                    "upper.ext4"@,
                    context.windows,
                ),
            )) && (config.manifest_digest is None ==> launch.rootfs.disk is None
                && launch.rootfs.upper is None),
        },
{
}

/// What runs after boot is the entrypoint followed by the command, with the first word as the
/// program, in the environment, directory and user of the sandbox; nothing runs where it was not
/// asked for, or where there is nothing to run.
pub proof fn launches_run_what_is_asked(
    launch: LaunchConfig,
    config: SandboxConfig,
    context: LaunchContext,
)
    requires
        launch_matches(launch, config, context),
    ensures
        ({
            let entrypoint: Seq<Seq<char>> = match config.spec.runtime.entrypoint {
                Some(list) => views(list@),
                None => Seq::empty(),
            };
            let cmd: Seq<Seq<char>> = match config.spec.runtime.cmd {
                Some(list) => views(list@),
                None => Seq::empty(),
            };
            let words = entrypoint + cmd;
            &&& launch.startup is Some <==> config.startup_command_requested && words.len() > 0
            &&& launch.startup matches Some(startup) ==> {
                &&& words[0] == startup.cmd@
                &&& words.skip(1) == views(startup.args@)
                &&& startup.env@.len() == config.spec.env@.len()
                &&& forall|i: int|
                    0 <= i < startup.env@.len() ==> (#[trigger] startup.env@[i])@
                        == config.spec.env@[i].key@ + "="@ + config.spec.env@[i].value@
                &&& text_of(startup.cwd) == text_of(config.spec.runtime.workdir)
                &&& text_of(startup.user) == text_of(config.spec.runtime.user)
            }
        }),
{
    if let Some(startup) = launch.startup {
        let words = startup_words(config);
        assert(words[0] == startup.cmd@);
        assert(words.skip(1) =~= views(startup.args@));
        assert(views(startup.env@).len() == config.spec.env@.len());
        assert forall|i: int| 0 <= i < startup.env@.len() implies (#[trigger] startup.env@[i])@
            == config.spec.env@[i].key@ + "="@ + config.spec.env@[i].value@ by {
            assert(views(startup.env@)[i] == startup.env@[i]@);
            assert(env_texts(config.spec.env@)[i] == env_text(config.spec.env@[i]));
        }
    }
}

proof fn lemma_in_env(config: SandboxConfig, context: LaunchContext, word: Seq<char>)
    ensures
        ({
            let lists = MountListsView::of(config.spec.mounts@, context);
            let hostname = match config.spec.runtime.hostname {
                Some(h) => h@,
                None => context.default_hostname@,
            };
            launch_env(config, context).contains(word) <==> {
                ||| entry_if_given("MSB_BLOCK_ROOT="@, block_root(config)).contains(word)
                ||| entry_if_any("MSB_TMPFS="@, lists.tmpfs).contains(word)
                ||| entry_if_any("MSB_DIR_MOUNTS="@, lists.dirs).contains(word)
                ||| entry_if_any("MSB_FILE_MOUNTS="@, lists.files).contains(word)
                ||| entry_if_any("MSB_DISK_MOUNTS="@, lists.disk_entries).contains(word)
                ||| config.spec.rlimits@.len() > 0 && word == "MSB_RLIMITS="@ + rlimits_text(
                    config.spec.rlimits@,
                )
                ||| env_texts(config.spec.env@).contains(word)
                ||| entry_if_given("MSB_USER="@, text_of(config.spec.runtime.user)).contains(word)
                ||| word == "MSB_SECURITY_PROFILE="@ + profile_text(config.spec.security_profile)
                ||| word == "MSB_HOSTNAME="@ + hostname
                ||| handoff_env(config.spec.init, text_of(config.spec.runtime.workdir)).contains(
                    word,
                )
            }
        }),
{
    let lists = MountListsView::of(config.spec.mounts@, context);
    let hostname = match config.spec.runtime.hostname {
        Some(h) => h@,
        None => context.default_hostname@,
    };
    let p1 = entry_if_given("MSB_BLOCK_ROOT="@, block_root(config));
    let p2 = entry_if_any("MSB_TMPFS="@, lists.tmpfs);
    let p3 = entry_if_any("MSB_DIR_MOUNTS="@, lists.dirs);
    let p4 = entry_if_any("MSB_FILE_MOUNTS="@, lists.files);
    let p5 = entry_if_any("MSB_DISK_MOUNTS="@, lists.disk_entries);
    let limits = "MSB_RLIMITS="@ + rlimits_text(config.spec.rlimits@);
    let p6: Seq<Seq<char>> = if config.spec.rlimits@.len() == 0 {
        Seq::empty()
    } else {
        seq![limits]
    };
    let p7 = env_texts(config.spec.env@);
    let p8 = entry_if_given("MSB_USER="@, text_of(config.spec.runtime.user));
    let profile = "MSB_SECURITY_PROFILE="@ + profile_text(config.spec.security_profile);
    let host = "MSB_HOSTNAME="@ + hostname;
    let p9 = seq![profile, host];
    let p10 = handoff_env(config.spec.init, text_of(config.spec.runtime.workdir));
    lemma_contains_sum(p1, p2, word);
    lemma_contains_sum(p1 + p2, p3, word);
    lemma_contains_sum(p1 + p2 + p3, p4, word);
    lemma_contains_sum(p1 + p2 + p3 + p4, p5, word);
    lemma_contains_sum(p1 + p2 + p3 + p4 + p5, p6, word);
    lemma_contains_sum(p1 + p2 + p3 + p4 + p5 + p6, p7, word);
    lemma_contains_sum(p1 + p2 + p3 + p4 + p5 + p6 + p7, p8, word);
    lemma_contains_sum(p1 + p2 + p3 + p4 + p5 + p6 + p7 + p8, p9, word);
    lemma_contains_sum(p1 + p2 + p3 + p4 + p5 + p6 + p7 + p8 + p9, p10, word);
    if config.spec.rlimits@.len() > 0 {
        assert(p6[0] == limits);
    }
    assert(p9[0] == profile && p9[1] == host);
    assert(p9.contains(word) <==> word == profile || word == host) by {
        if p9.contains(word) {
            let i = choose|i: int| 0 <= i < p9.len() && p9[i] == word;
        }
    }
    assert(launch_env(config, context) == p1 + p2 + p3 + p4 + p5 + p6 + p7 + p8 + p9 + p10);
}

/// The guest is told what it needs: the sandbox's own variables, its hostname or the usual one, its
/// user, its security profile, its limits, and the process that takes over as init with its
/// arguments, directory and environment.
pub proof fn guests_are_told_who_they_are(config: SandboxConfig, context: LaunchContext)
    ensures
        ({
            let env = launch_env(config, context);
            &&& forall|i: int|
                0 <= i < config.spec.env@.len() ==> env.contains(
                    (#[trigger] config.spec.env@[i]).key@ + "="@ + config.spec.env@[i].value@,
                )
            &&& env.contains(
                "MSB_HOSTNAME="@ + (match config.spec.runtime.hostname {
                    Some(h) => h@,
                    None => context.default_hostname@,
                }),
            )
            &&& config.spec.runtime.user is Some ==> env.contains(
                "MSB_USER="@ + config.spec.runtime.user->0@,
            )
            &&& config.spec.security_profile == SecurityProfile::Default ==> env.contains(
                "MSB_SECURITY_PROFILE="@ + "default"@,
            )
            &&& config.spec.security_profile == SecurityProfile::Restricted ==> env.contains(
                "MSB_SECURITY_PROFILE="@ + "restricted"@,
            )
            &&& config.spec.rlimits@.len() > 0 ==> env.contains(
                "MSB_RLIMITS="@ + rlimits_text(config.spec.rlimits@),
            )
            &&& config.spec.init matches Some(init) ==> {
                &&& env.contains("MSB_HANDOFF_INIT="@ + init.cmd@)
                &&& init.args@.len() > 0 ==> env.contains(
                    "MSB_HANDOFF_INIT_ARGS="@ + base64url_text(strings_json(views(init.args@))),
                )
                &&& init.env@.len() > 0 ==> env.contains(
                    "MSB_HANDOFF_INIT_ENV="@ + base64url_text(
                        encode_utf8(pairs_json(pair_views(init.env@))),
                    ),
                )
                &&& config.spec.runtime.workdir is Some ==> env.contains(
                    "MSB_HANDOFF_INIT_CWD="@ + config.spec.runtime.workdir->0@,
                )
            }
            &&& config.spec.image is DiskImage ==> env.contains(
                "MSB_BLOCK_ROOT="@ + ("kind=disk-image,device=/dev/vda"@ + (
                match config.spec.image->DiskImage_fstype {
                    Some(fs) => ",fstype="@ + fs@,
                    None => Seq::empty(),
                })),
            )
            &&& config.spec.image is Oci && config.manifest_digest is Some ==> env.contains(
                "MSB_BLOCK_ROOT="@ + OCI_BLOCK_ROOT@,
            )
        }),
{
    let env = launch_env(config, context);
    assert forall|i: int| 0 <= i < config.spec.env@.len() implies env.contains(
        (#[trigger] config.spec.env@[i]).key@ + "="@ + config.spec.env@[i].value@,
    ) by {
        environment_reaches_the_guest(config, context, i);
    }
    let hostname = match config.spec.runtime.hostname {
        Some(h) => h@,
        None => context.default_hostname@,
    };
    lemma_in_env(config, context, "MSB_HOSTNAME="@ + hostname);
    lemma_in_env(config, context, "MSB_SECURITY_PROFILE="@ + "default"@);
    lemma_in_env(config, context, "MSB_SECURITY_PROFILE="@ + "restricted"@);
    lemma_in_env(config, context, "MSB_RLIMITS="@ + rlimits_text(config.spec.rlimits@));
    if let Some(user) = config.spec.runtime.user {
        let given = entry_if_given("MSB_USER="@, text_of(config.spec.runtime.user));
        assert(given[0] == "MSB_USER="@ + user@);
        lemma_in_env(config, context, "MSB_USER="@ + user@);
    }
    if let Some(root) = block_root(config) {
        let given = entry_if_given("MSB_BLOCK_ROOT="@, block_root(config));
        assert(given[0] == "MSB_BLOCK_ROOT="@ + root);
        lemma_in_env(config, context, "MSB_BLOCK_ROOT="@ + root);
    }
    if let Some(init) = config.spec.init {
        let workdir = text_of(config.spec.runtime.workdir);
        let handoff = handoff_env(config.spec.init, workdir);
        let cmd = "MSB_HANDOFF_INIT="@ + init.cmd@;
        let args = "MSB_HANDOFF_INIT_ARGS="@ + base64url_text(strings_json(views(init.args@)));
        let vars = "MSB_HANDOFF_INIT_ENV="@ + base64url_text(
            encode_utf8(pairs_json(pair_views(init.env@))),
        );
        let h1 = seq![cmd];
        let h2: Seq<Seq<char>> = if init.args@.len() == 0 {
            Seq::empty()
        } else {
            seq![args]
        };
        let h3 = entry_if_given("MSB_HANDOFF_INIT_CWD="@, workdir);
        let h4: Seq<Seq<char>> = if init.env@.len() == 0 {
            Seq::empty()
        } else {
            seq![vars]
        };
        assert(handoff == h1 + h2 + h3 + h4);
        assert(h1[0] == cmd);
        lemma_contains_sum(h1, h2, cmd);
        lemma_contains_sum(h1 + h2, h3, cmd);
        lemma_contains_sum(h1 + h2 + h3, h4, cmd);
        lemma_in_env(config, context, cmd);
        if init.args@.len() > 0 {
            assert(h2[0] == args);
            lemma_contains_sum(h1, h2, args);
            lemma_contains_sum(h1 + h2, h3, args);
            lemma_contains_sum(h1 + h2 + h3, h4, args);
            lemma_in_env(config, context, args);
        }
        if init.env@.len() > 0 {
            assert(h4[0] == vars);
            lemma_contains_sum(h1 + h2 + h3, h4, vars);
            lemma_in_env(config, context, vars);
        }
        if let Some(dir) = config.spec.runtime.workdir {
            let cwd = "MSB_HANDOFF_INIT_CWD="@ + dir@;
            assert(h3[0] == cwd);
            lemma_contains_sum(h1 + h2, h3, cwd);
            lemma_contains_sum(h1 + h2 + h3, h4, cwd);
            lemma_in_env(config, context, cwd);
        }
    }
}

/// Every mount of a sandbox is handed over, in its own way and with its own values: a staged file
/// from where it was staged, a shared directory with its quota or the usual one, a volume from its
/// storage, a disk as a disk, memory to the guest alone.
pub proof fn mounts_are_handed_over(
    lists: MountListsView,
    mount: VolumeMount,
    context: LaunchContext,
)
    requires
        is_resolved(mount, context.volumes@),
    ensures
        ({
            let next = lists.plus(mount, context);
            match mount {
                VolumeMount::Bind {
                    host,
                    guest,
                    options,
                    stat_virtualization: stat,
                    host_permissions: perms,
                    quota_mib,
                } => {
                    &&& next.disks == lists.disks && next.disk_entries == lists.disk_entries
                    &&& next.tmpfs == lists.tmpfs
                    &&& if context.staged@.dom().contains(guest@) {
                        let staged = context.staged@[guest@];
                        &&& next.mounts == lists.mounts.push(
                            file_mount_arg(staged.tag@, staged.dir@, options, stat, perms),
                        )
                        &&& next.files == listed(
                            lists.files,
                            file_entry(staged.tag@, staged.filename@, guest@, options),
                        )
                        &&& next.dirs == lists.dirs
                    } else {
                        &&& next.mounts == lists.mounts.push(
                            dir_mount_arg(
                                guest@,
                                host@,
                                options,
                                stat,
                                perms,
                                if quota_mib is Some {
                                    quota_mib
                                } else {
                                    Some(context.default_bind_quota_mib)
                                },
                            ),
                        )
                        &&& next.dirs == listed(lists.dirs, dir_entry(guest@, options))
                        &&& next.files == lists.files
                    }
                },
                VolumeMount::Named {
                    name,
                    guest,
                    options,
                    stat_virtualization: stat,
                    host_permissions: perms,
                    ..
                } => {
                    let volume = context.volumes@[name@];
                    &&& next.tmpfs == lists.tmpfs && next.files == lists.files
                    &&& volume.kind == VolumeKind::Directory ==> next.mounts == lists.mounts.push(
                        dir_mount_arg(
                            guest@,
                            volume.path@,
                            options,
                            stat,
                            perms,
                            volume.quota_mib,
                        ),
                    ) && next.dirs == listed(lists.dirs, dir_entry(guest@, options))
                    &&& volume.kind == VolumeKind::Disk ==> next.disks == lists.disks.push(
                        disk_mount_arg(mount_tag(guest@), volume.path@, volume.format->0, options),
                    ) && next.disk_entries == listed(
                        lists.disk_entries,
                        disk_entry(mount_tag(guest@), guest@, text_of(volume.fstype), options),
                    )
                },
                VolumeMount::Tmpfs { guest, size_mib, options } => {
                    &&& next.tmpfs == listed(lists.tmpfs, tmpfs_entry(guest@, size_mib, options))
                    &&& next.mounts == lists.mounts && next.disks == lists.disks
                    &&& next.dirs == lists.dirs && next.files == lists.files
                    &&& next.disk_entries == lists.disk_entries
                },
                VolumeMount::DiskImage { host, guest, format, fstype, options } => {
                    &&& next.disks == lists.disks.push(
                        disk_mount_arg(mount_tag(guest@), host@, format, options),
                    )
                    &&& next.disk_entries == listed(
                        lists.disk_entries,
                        disk_entry(mount_tag(guest@), guest@, text_of(fstype), options),
                    )
                    &&& next.mounts == lists.mounts && next.tmpfs == lists.tmpfs
                    &&& next.dirs == lists.dirs && next.files == lists.files
                },
            }
        }),
{
}

/// The lists of all mounts reach the process and the guest, each under its own name: shares and
/// disks as arguments, and what the guest mounts as its variables.
pub proof fn mount_lists_reach_their_readers(
    launch: LaunchConfig,
    config: SandboxConfig,
    context: LaunchContext,
)
    requires
        launch_matches(launch, config, context),
    ensures
        ({
            let lists = MountListsView::of(config.spec.mounts@, context);
            let env = views(launch.env@);
            &&& views(launch.mounts@) == lists.mounts
            &&& views(launch.disks@) == lists.disks
            &&& lists.tmpfs.len() > 0 ==> env.contains("MSB_TMPFS="@ + lists.tmpfs)
            &&& lists.dirs.len() > 0 ==> env.contains("MSB_DIR_MOUNTS="@ + lists.dirs)
            &&& lists.files.len() > 0 ==> env.contains("MSB_FILE_MOUNTS="@ + lists.files)
            &&& lists.disk_entries.len() > 0 ==> env.contains(
                "MSB_DISK_MOUNTS="@ + lists.disk_entries,
            )
        }),
{
    let lists = MountListsView::of(config.spec.mounts@, context);
    lemma_in_env(config, context, "MSB_TMPFS="@ + lists.tmpfs);
    lemma_in_env(config, context, "MSB_DIR_MOUNTS="@ + lists.dirs);
    lemma_in_env(config, context, "MSB_FILE_MOUNTS="@ + lists.files);
    lemma_in_env(config, context, "MSB_DISK_MOUNTS="@ + lists.disk_entries);
    if lists.tmpfs.len() > 0 {
        assert(entry_if_any("MSB_TMPFS="@, lists.tmpfs)[0] == "MSB_TMPFS="@ + lists.tmpfs);
    }
    if lists.dirs.len() > 0 {
        assert(entry_if_any("MSB_DIR_MOUNTS="@, lists.dirs)[0] == "MSB_DIR_MOUNTS="@ + lists.dirs);
    }
    if lists.files.len() > 0 {
        assert(entry_if_any("MSB_FILE_MOUNTS="@, lists.files)[0] == "MSB_FILE_MOUNTS="@
            + lists.files);
    }
    if lists.disk_entries.len() > 0 {
        assert(entry_if_any("MSB_DISK_MOUNTS="@, lists.disk_entries)[0] == "MSB_DISK_MOUNTS="@
            + lists.disk_entries);
    }
}

/// Only a named volume has to be resolved: it has to be known, and as a disk with its format.
pub proof fn only_named_volumes_are_resolved(
    mount: VolumeMount,
    volumes: Map<Seq<char>, ResolvedNamedVolume>,
)
    ensures
        !(mount is Named) ==> is_resolved(mount, volumes),
        mount is Named && !volumes.dom().contains(mount->Named_name@) ==> !is_resolved(
            mount,
            volumes,
        ),
        mount is Named && volumes.dom().contains(mount->Named_name@)
            && volumes[mount->Named_name@].kind == VolumeKind::Directory ==> is_resolved(
            mount,
            volumes,
        ),
        mount is Named && volumes.dom().contains(mount->Named_name@)
            && volumes[mount->Named_name@].kind == VolumeKind::Disk ==> (is_resolved(mount, volumes)
            <==> volumes[mount->Named_name@].format is Some),
{
}

/// The root of an image is two disks, the read-only one below the writable one.
pub proof fn image_roots_are_two_disks()
    ensures
        OCI_BLOCK_ROOT@ == "kind=oci-erofs,lower=/dev/vda,upper=/dev/vdb,upper_fstype=ext4"@,
{
}

/// The mounts of a sandbox are handed over one by one, in their order, beginning with none.
pub proof fn mounts_are_handed_over_in_order(
    mounts: Seq<VolumeMount>,
    mount: VolumeMount,
    context: LaunchContext,
)
    ensures
        MountListsView::of(mounts.push(mount), context) == MountListsView::of(mounts, context).plus(
            mount,
            context,
        ),
        MountListsView::of(Seq::empty(), context).mounts.len() == 0,
        MountListsView::of(Seq::empty(), context).disks.len() == 0,
        MountListsView::of(Seq::empty(), context).tmpfs.len() == 0,
        MountListsView::of(Seq::empty(), context).dirs.len() == 0,
        MountListsView::of(Seq::empty(), context).files.len() == 0,
        MountListsView::of(Seq::empty(), context).disk_entries.len() == 0,
{
    assert(mounts.push(mount).drop_last() =~= mounts);
}

} // verus!
