//! Spawning the sandbox process.

use vstd::prelude::*;

use crate::error::{ErrorView, MicrosandboxError, MicrosandboxResult};
use crate::host_paths::{
    host_join, host_joined, windows_file_name, windows_join, windows_joined, windows_name,
    windows_names_are_components,
};
use crate::launch::flag;
use crate::outside::{quoted, quoted_text};
use crate::paths::{
    file_name, file_names_stay_in_their_directory, joined, path_file_name, path_join,
};
use crate::text::{decimal, push_decimal, signed_decimal, signed_text, views};
use crate::types::{RootDisk, RootfsSource};

verus! {

/// Seconds that a sandbox process gets to report its startup.
pub const STARTUP_TIMEOUT_SECS: u64 = 30;

/// How the sandbox process relates to the process that creates it.
#[derive(Clone, Copy, Debug, PartialEq, Eq, Structural)]
pub enum SpawnMode {
    /// The creating process keeps the sandbox alive.
    Attached,
    /// The sandbox survives the creating process.
    Detached,
}

/// The directories of a sandbox on the host.
pub struct SandboxDirs {
    pub sandbox_dir: String,
    pub log_dir: String,
    pub runtime_dir: String,
    pub scripts_dir: String,
    pub db_path: String,
}

/// The directories of a sandbox on the host.
pub fn sandbox_dirs(
    sandboxes_dir: &str,
    name: &str,
    home: &str,
    db_subdir: &str,
    db_filename: &str,
    windows: bool,
) -> (r: SandboxDirs)
    ensures
        r.sandbox_dir@ == host_joined(sandboxes_dir@, name@, windows),
        r.log_dir@ == host_joined(r.sandbox_dir@, "logs"@, windows),
        r.runtime_dir@ == host_joined(r.sandbox_dir@, "runtime"@, windows),
        r.scripts_dir@ == host_joined(r.runtime_dir@, "scripts"@, windows),
        r.db_path@ == host_joined(
            host_joined(home@, db_subdir@, windows),
            db_filename@,
            windows,
        ),
{
    let sandbox_dir = host_join(sandboxes_dir, name, windows);
    let log_dir = host_join(sandbox_dir.as_str(), "logs", windows);
    let runtime_dir = host_join(sandbox_dir.as_str(), "runtime", windows);
    let scripts_dir = host_join(runtime_dir.as_str(), "scripts", windows);
    let db_dir = host_join(home, db_subdir, windows);
    let db_path = host_join(db_dir.as_str(), db_filename, windows);
    SandboxDirs { sandbox_dir, log_dir, runtime_dir, scripts_dir, db_path }
}

/// Where a script is written: under the last component of its name, so that no name leads out of
/// the directory of scripts.
pub fn script_path(scripts_dir: &str, name: &str) -> (r: MicrosandboxResult<String>)
    ensures
        match r {
            Ok(path) => {
                &&& file_name(name@) is Some
                &&& path@ == joined(scripts_dir@, file_name(name@)->0)
                &&& !file_name(name@)->0.contains('/')
                &&& file_name(name@)->0 != seq!['.', '.']
            },
            Err(e) => file_name(name@) is None && e@ == ErrorView::InvalidConfig(
                "invalid script name: "@ + name@,
            ),
        },
{
    match path_file_name(name) {
        Some(file) => {
            proof {
                file_names_stay_in_their_directory(name@);
            }
            Ok(path_join(scripts_dir, file.as_str()))
        },
        None => {
            let mut message = "invalid script name: ".to_owned();
            message.append(name);
            Err(MicrosandboxError::InvalidConfig(message))
        },
    }
}

/// Where a script is written on Windows, where either separator ends a component of its name.
pub fn windows_script_path(scripts_dir: &str, name: &str) -> (r: MicrosandboxResult<String>)
    ensures
        match r {
            Ok(path) => {
                &&& windows_name(name@) is Some
                &&& path@ == windows_joined(scripts_dir@, windows_name(name@)->0)
                &&& !windows_name(name@)->0.contains('\\')
                &&& windows_name(name@)->0 != seq!['.', '.']
            },
            Err(e) => windows_name(name@) is None && e@ == ErrorView::InvalidConfig(
                "invalid script name: "@ + name@,
            ),
        },
{
    match windows_file_name(name) {
        Some(file) => {
            proof {
                windows_names_are_components(name@);
            }
            Ok(windows_join(scripts_dir, file.as_str()))
        },
        None => {
            let mut message = "invalid script name: ".to_owned();
            message.append(name);
            Err(MicrosandboxError::InvalidConfig(message))
        },
    }
}

/// The size that the writable disk of an image is asked to have.
pub open spec fn upper_size(image: RootfsSource) -> Option<u32> {
    match image {
        RootfsSource::Oci(oci) => match oci.root_disk {
            Some(RootDisk::Managed { size_mib }) => size_mib,
            _ => None,
        },
        _ => None,
    }
}

/// The size to which the writable disk grows before boot, if it is there and has one to grow to.
pub fn prepare_oci_upper(image: &RootfsSource, upper_exists: bool) -> (r: Option<u32>)
    ensures
        r == if upper_exists {
            upper_size(*image)
        } else {
            None
        },
{
    if !upper_exists {
        return None;
    }
    match image {
        RootfsSource::Oci(oci) => match &oci.root_disk {
            Some(RootDisk::Managed { size_mib }) => *size_mib,
            _ => None,
        },
        _ => None,
    }
}

/// The memory limit of a sandbox in bytes.
pub fn memory_limit_bytes(memory_mib: u32) -> (r: u64)
    ensures
        r == memory_mib * 1048576,
{
    memory_mib as u64 * 1048576
}

/// How the sandbox process reads its launch configuration.
pub enum ConfigChannel {
    /// From an inherited descriptor.
    Descriptor(i32),
    /// From a file.
    File(String),
}

/// The arguments that name the channel.
pub open spec fn channel_args(channel: ConfigChannel) -> Seq<Seq<char>> {
    match channel {
        ConfigChannel::Descriptor(fd) => flag("--config-fd"@, signed_decimal(fd as int)),
        ConfigChannel::File(path) => flag("--config-file"@, path@),
    }
}

/// Adds the arguments that name the channel.
pub fn push_config_channel(visible: &mut Vec<String>, channel: ConfigChannel)
    ensures
        views(final(visible)@) == views(old(visible)@) + channel_args(channel),
{
    match channel {
        ConfigChannel::Descriptor(fd) => {
            visible.push("--config-fd".to_owned());
            visible.push(signed_text(fd as i64));
        },
        ConfigChannel::File(path) => {
            visible.push("--config-file".to_owned());
            visible.push(path);
        },
    }
    assert(views(visible@) =~= views(old(visible)@) + channel_args(channel));
}

/// Why a spawn failed.
pub enum SpawnFailure {
    /// The host refused; the text is its own.
    Host(String),
    /// No job could be created to tie the process to its creator; the text is the host's.
    JobCreation(String),
    /// The process could not be tied to its creator's job: how it ended, and the host's text.
    JobAssignment { status: String, cause: String },
    /// The process was gone before it had a PID.
    ExitedImmediately,
    /// No startup report came in time.
    StartupTimeout,
    /// The startup report could not be read.
    Unreadable(String),
    /// The startup report made no sense: what came, and how the process ended.
    NoStartupInfo { line: String, status: String },
    /// The startup report named another process.
    PidMismatch { spawned: u32, reported: u32, status: String },
}

/// A [`SpawnFailure`] as mathematical values.
pub enum SpawnFailureView {
    Host(Seq<char>),
    JobCreation(Seq<char>),
    JobAssignment { status: Seq<char>, cause: Seq<char> },
    ExitedImmediately,
    StartupTimeout,
    Unreadable(Seq<char>),
    NoStartupInfo { line: Seq<char>, status: Seq<char> },
    PidMismatch { spawned: u32, reported: u32, status: Seq<char> },
}

impl View for SpawnFailure {
    type V = SpawnFailureView;

    open spec fn view(&self) -> SpawnFailureView {
        match self {
            SpawnFailure::Host(text) => SpawnFailureView::Host(text@),
            SpawnFailure::JobCreation(cause) => SpawnFailureView::JobCreation(cause@),
            SpawnFailure::JobAssignment { status, cause } => {
                SpawnFailureView::JobAssignment { status: status@, cause: cause@ }
            },
            SpawnFailure::ExitedImmediately => SpawnFailureView::ExitedImmediately,
            SpawnFailure::StartupTimeout => SpawnFailureView::StartupTimeout,
            SpawnFailure::Unreadable(text) => SpawnFailureView::Unreadable(text@),
            SpawnFailure::NoStartupInfo { line, status } => {
                SpawnFailureView::NoStartupInfo { line: line@, status: status@ }
            },
            SpawnFailure::PidMismatch { spawned, reported, status } => {
                SpawnFailureView::PidMismatch {
                    spawned: *spawned,
                    reported: *reported,
                    status: status@,
                }
            },
        }
    }
}

/// The error that a failure is reported as.
pub open spec fn spawn_error(failure: SpawnFailureView) -> ErrorView {
    match failure {
        SpawnFailureView::Host(text) => ErrorView::Host(text),
        SpawnFailureView::JobCreation(cause) => ErrorView::Runtime(
            "failed to create Windows sandbox job: "@ + cause,
        ),
        SpawnFailureView::JobAssignment { status, cause } => ErrorView::Runtime(
            "failed to assign sandbox process to Windows job (status: "@ + status + "): "@ + cause,
        ),
        SpawnFailureView::ExitedImmediately => ErrorView::Runtime(
            "sandbox process exited immediately"@,
        ),
        SpawnFailureView::StartupTimeout => ErrorView::Runtime(
            "sandbox startup timeout: no JSON received within 30 seconds"@,
        ),
        SpawnFailureView::Unreadable(text) => ErrorView::Host(text),
        SpawnFailureView::NoStartupInfo { line, status } => ErrorView::Runtime(
            "sandbox process exited ("@ + status + ") before sending startup info (line: "@
                + quoted_text(line) + ", check stderr above for details)"@,
        ),
        SpawnFailureView::PidMismatch { spawned, reported, status } => ErrorView::Runtime(
            "sandbox startup PID mismatch: spawned pid "@ + decimal(spawned as nat)
                + ", startup pid "@ + decimal(reported as nat) + " (status: "@ + status + ")"@,
        ),
    }
}

impl SpawnFailure {
    /// The error that a failure is reported as.
    pub fn into_error(self) -> (r: MicrosandboxError)
        ensures
            r@ == spawn_error(self@),
    {
        match self {
            SpawnFailure::Host(text) => MicrosandboxError::Host(text),
            SpawnFailure::JobCreation(cause) => {
                let mut message = "failed to create Windows sandbox job: ".to_owned();
                message.append(cause.as_str());
                MicrosandboxError::Runtime(message)
            },
            SpawnFailure::JobAssignment { status, cause } => {
                let mut message =
                    "failed to assign sandbox process to Windows job (status: ".to_owned();
                message.append(status.as_str());
                message.append("): ");
                message.append(cause.as_str());
                MicrosandboxError::Runtime(message)
            },
            SpawnFailure::ExitedImmediately => MicrosandboxError::Runtime(
                "sandbox process exited immediately".to_owned(),
            ),
            SpawnFailure::StartupTimeout => MicrosandboxError::Runtime(
                "sandbox startup timeout: no JSON received within 30 seconds".to_owned(),
            ),
            SpawnFailure::Unreadable(text) => MicrosandboxError::Host(text),
            SpawnFailure::NoStartupInfo { line, status } => {
                let mut message = "sandbox process exited (".to_owned();
                message.append(status.as_str());
                message.append(") before sending startup info (line: ");
                message.append(quoted(line.as_str()).as_str());
                message.append(", check stderr above for details)");
                MicrosandboxError::Runtime(message)
            },
            SpawnFailure::PidMismatch { spawned, reported, status } => {
                let mut message = "sandbox startup PID mismatch: spawned pid ".to_owned();
                push_decimal(&mut message, spawned as u64);
                message.append(", startup pid ");
                push_decimal(&mut message, reported as u64);
                message.append(" (status: ");
                message.append(status.as_str());
                message.append(")");
                MicrosandboxError::Runtime(message)
            },
        }
    }
}

/// Why a spawned process is given up.
#[derive(Clone, Copy, Debug, PartialEq, Eq, Structural)]
pub enum GiveUp {
    /// It could not be tied to its creator's job.
    JobAssignment,
    Unreadable,
    Timeout,
    NoStartupInfo,
    PidMismatch { reported: u32 },
}

/// What a spawn depends on.
#[derive(Clone, Copy, Debug, PartialEq, Eq, Structural)]
pub struct SpawnPlan {
    pub mode: SpawnMode,
    pub samples_metrics: bool,
    /// Whether the host is Windows: pipes and jobs in place of sockets and watchdogs.
    pub windows: bool,
}

/// The preparations of a spawn, in order.
#[derive(Clone, Copy, Debug, PartialEq, Eq, Structural)]
pub enum Preparation {
    /// Resolve the secrets that the network configuration names.
    Secrets,
    /// Find the sandbox binary and its kernel.
    Binaries,
    /// Check what a Windows host must have.
    Prerequisites,
    /// Create the sandbox's directories.
    Directories,
    /// Grow the writable disk to the size it is asked to have.
    Upper,
    /// Write the scripts.
    Scripts,
    /// Find the agent socket.
    Socket,
    /// Make sure that no stale process serves the agent pipe.
    Pipe,
    /// Stage host files.
    Files,
    /// Find the storage of the named volumes.
    Volumes,
    /// Lock the disks.
    Disks,
}

/// The preparation after `p`, if there is any.
pub open spec fn preparation_after(p: Preparation, windows: bool) -> Option<Preparation> {
    match p {
        Preparation::Secrets => Some(Preparation::Binaries),
        Preparation::Binaries => Some(
            if windows {
                Preparation::Prerequisites
            } else {
                Preparation::Directories
            },
        ),
        Preparation::Prerequisites => Some(Preparation::Directories),
        Preparation::Directories => Some(Preparation::Upper),
        Preparation::Upper => Some(Preparation::Scripts),
        Preparation::Scripts => Some(Preparation::Socket),
        Preparation::Socket => Some(
            if windows {
                Preparation::Pipe
            } else {
                Preparation::Files
            },
        ),
        Preparation::Pipe => Some(Preparation::Files),
        Preparation::Files => Some(Preparation::Volumes),
        Preparation::Volumes => Some(Preparation::Disks),
        Preparation::Disks => None,
    }
}

/// What the spawn of a sandbox process does next.
#[derive(Clone, Copy, Debug, PartialEq, Eq, Structural)]
pub enum SpawnStep {
    /// Prepare the host.
    Prepare(Preparation),
    /// Reserve a metrics slot; failing to get one is no failure.
    ReserveMetrics,
    /// Open what ties an attached process to its creator: a watchdog pipe, or a job on Windows.
    OpenTie { reserved: bool },
    /// Open the pipe over which a detached process reports its startup.
    OpenStartupPipe { reserved: bool },
    /// Write the launch configuration for the process to read.
    WriteConfig { reserved: bool },
    /// Prepare signal handling and logging.
    PrepareSignals { reserved: bool },
    /// Start the process.
    Start { reserved: bool },
    /// Tie the process to its creator's job, on Windows.
    AssignJob { reserved: bool, pid: u32 },
    /// Read its startup report.
    ReadStartup { reserved: bool, pid: u32 },
    /// Kill the process and wait for it.
    Terminate { reserved: bool, pid: u32, why: GiveUp },
    /// Give the metrics slot back, then fail.
    ReleaseMetrics,
    /// The process runs.
    Started { pid: u32 },
    /// Nothing runs.
    Failed,
}

/// What happened to the step of a spawn.
#[derive(Clone, Copy, Debug, PartialEq, Eq, Structural)]
pub enum SpawnEvent {
    Done,
    Failed,
    /// Whether a metrics slot was reserved.
    Reserved(bool),
    /// The process started; its PID, unless it is gone already.
    Spawned(Option<u32>),
    /// The startup report: the PID it names, `None` where it makes no sense.
    Reported(Option<u32>),
    TimedOut,
    Terminated,
}

/// The step in which a spawn fails: a reserved slot is given back first.
pub open spec fn spawn_fails(reserved: bool) -> SpawnStep {
    if reserved {
        SpawnStep::ReleaseMetrics
    } else {
        SpawnStep::Failed
    }
}

/// The step that opens what a mode needs: an attached process is tied to its creator, a detached
/// one reports over a pipe of its own.
pub open spec fn open_for(mode: SpawnMode, reserved: bool) -> SpawnStep {
    match mode {
        SpawnMode::Attached => SpawnStep::OpenTie { reserved },
        SpawnMode::Detached => SpawnStep::OpenStartupPipe { reserved },
    }
}

/// The step after an event. An event that the step does not expect changes nothing.
pub open spec fn spawn_next(step: SpawnStep, event: SpawnEvent, plan: SpawnPlan) -> SpawnStep {
    match (step, event) {
        (SpawnStep::Prepare(p), SpawnEvent::Done) => match preparation_after(p, plan.windows) {
            Some(next) => SpawnStep::Prepare(next),
            None => if plan.samples_metrics {
                SpawnStep::ReserveMetrics
            } else {
                open_for(plan.mode, false)
            },
        },
        (SpawnStep::Prepare(p), SpawnEvent::Failed) => SpawnStep::Failed,
        (SpawnStep::ReserveMetrics, SpawnEvent::Reserved(reserved)) => open_for(
            plan.mode,
            reserved,
        ),
        (SpawnStep::OpenTie { reserved }, SpawnEvent::Done) => SpawnStep::WriteConfig { reserved },
        (SpawnStep::OpenTie { reserved }, SpawnEvent::Failed) => spawn_fails(reserved),
        (SpawnStep::OpenStartupPipe { reserved }, SpawnEvent::Done) => SpawnStep::WriteConfig {
            reserved,
        },
        (SpawnStep::OpenStartupPipe { reserved }, SpawnEvent::Failed) => spawn_fails(reserved),
        (SpawnStep::WriteConfig { reserved }, SpawnEvent::Done) => SpawnStep::PrepareSignals {
            reserved,
        },
        (SpawnStep::WriteConfig { reserved }, SpawnEvent::Failed) => spawn_fails(reserved),
        (SpawnStep::PrepareSignals { reserved }, SpawnEvent::Done) => SpawnStep::Start { reserved },
        // A slot that is reserved at this point is left to the registry.
        (SpawnStep::PrepareSignals { reserved }, SpawnEvent::Failed) => SpawnStep::Failed,
        (SpawnStep::Start { reserved }, SpawnEvent::Spawned(Some(pid))) => if plan.windows
            && plan.mode == SpawnMode::Attached {
            SpawnStep::AssignJob { reserved, pid }
        } else {
            SpawnStep::ReadStartup { reserved, pid }
        },
        (SpawnStep::Start { reserved }, SpawnEvent::Spawned(None)) => spawn_fails(reserved),
        (SpawnStep::Start { reserved }, SpawnEvent::Failed) => spawn_fails(reserved),
        (SpawnStep::AssignJob { reserved, pid }, SpawnEvent::Done) => SpawnStep::ReadStartup {
            reserved,
            pid,
        },
        (SpawnStep::AssignJob { reserved, pid }, SpawnEvent::Failed) => {
            SpawnStep::Terminate { reserved, pid, why: GiveUp::JobAssignment }
        },
        (SpawnStep::ReadStartup { reserved, pid }, SpawnEvent::Reported(Some(reported))) => {
            if reported == pid {
                SpawnStep::Started { pid }
            } else {
                SpawnStep::Terminate { reserved, pid, why: GiveUp::PidMismatch { reported } }
            }
        },
        (SpawnStep::ReadStartup { reserved, pid }, SpawnEvent::Reported(None)) => {
            SpawnStep::Terminate { reserved, pid, why: GiveUp::NoStartupInfo }
        },
        (SpawnStep::ReadStartup { reserved, pid }, SpawnEvent::Failed) => {
            SpawnStep::Terminate { reserved, pid, why: GiveUp::Unreadable }
        },
        (SpawnStep::ReadStartup { reserved, pid }, SpawnEvent::TimedOut) => {
            SpawnStep::Terminate { reserved, pid, why: GiveUp::Timeout }
        },
        (SpawnStep::Terminate { reserved, pid, why }, SpawnEvent::Terminated) => spawn_fails(
            reserved,
        ),
        (SpawnStep::ReleaseMetrics, SpawnEvent::Done) => SpawnStep::Failed,
        _ => step,
    }
}

fn fail_step(reserved: bool) -> (r: SpawnStep)
    ensures
        r == spawn_fails(reserved),
{
    if reserved {
        SpawnStep::ReleaseMetrics
    } else {
        SpawnStep::Failed
    }
}

fn open_step(mode: SpawnMode, reserved: bool) -> (r: SpawnStep)
    ensures
        r == open_for(mode, reserved),
{
    match mode {
        SpawnMode::Attached => SpawnStep::OpenTie { reserved },
        SpawnMode::Detached => SpawnStep::OpenStartupPipe { reserved },
    }
}

impl Preparation {
    /// The preparation that comes next, if there is any.
    pub fn following(self, windows: bool) -> (r: Option<Preparation>)
        ensures
            r == preparation_after(self, windows),
    {
        match self {
            Preparation::Secrets => Some(Preparation::Binaries),
            Preparation::Binaries => {
                if windows {
                    Some(Preparation::Prerequisites)
                } else {
                    Some(Preparation::Directories)
                }
            },
            Preparation::Prerequisites => Some(Preparation::Directories),
            Preparation::Directories => Some(Preparation::Upper),
            Preparation::Upper => Some(Preparation::Scripts),
            Preparation::Scripts => Some(Preparation::Socket),
            Preparation::Socket => {
                if windows {
                    Some(Preparation::Pipe)
                } else {
                    Some(Preparation::Files)
                }
            },
            Preparation::Pipe => Some(Preparation::Files),
            Preparation::Files => Some(Preparation::Volumes),
            Preparation::Volumes => Some(Preparation::Disks),
            Preparation::Disks => None,
        }
    }
}

impl SpawnStep {
    /// The first step.
    pub fn first() -> (r: SpawnStep)
        ensures
            r == SpawnStep::Prepare(Preparation::Secrets),
    {
        SpawnStep::Prepare(Preparation::Secrets)
    }

    /// Takes an event into account.
    pub fn advance(self, event: SpawnEvent, plan: SpawnPlan) -> (r: SpawnStep)
        ensures
            r == spawn_next(self, event, plan),
    {
        match (self, event) {
            (SpawnStep::Prepare(p), SpawnEvent::Done) => match p.following(plan.windows) {
                Some(next) => SpawnStep::Prepare(next),
                None => {
                    if plan.samples_metrics {
                        SpawnStep::ReserveMetrics
                    } else {
                        open_step(plan.mode, false)
                    }
                },
            },
            (SpawnStep::Prepare(_), SpawnEvent::Failed) => SpawnStep::Failed,
            (SpawnStep::ReserveMetrics, SpawnEvent::Reserved(reserved)) => {
                open_step(plan.mode, reserved)
            },
            (SpawnStep::OpenTie { reserved }, SpawnEvent::Done) => {
                SpawnStep::WriteConfig { reserved }
            },
            (SpawnStep::OpenTie { reserved }, SpawnEvent::Failed) => fail_step(reserved),
            (SpawnStep::OpenStartupPipe { reserved }, SpawnEvent::Done) => {
                SpawnStep::WriteConfig { reserved }
            },
            (SpawnStep::OpenStartupPipe { reserved }, SpawnEvent::Failed) => fail_step(reserved),
            (SpawnStep::WriteConfig { reserved }, SpawnEvent::Done) => {
                SpawnStep::PrepareSignals { reserved }
            },
            (SpawnStep::WriteConfig { reserved }, SpawnEvent::Failed) => fail_step(reserved),
            (SpawnStep::PrepareSignals { reserved }, SpawnEvent::Done) => {
                SpawnStep::Start { reserved }
            },
            (SpawnStep::PrepareSignals { .. }, SpawnEvent::Failed) => SpawnStep::Failed,
            (SpawnStep::Start { reserved }, SpawnEvent::Spawned(Some(pid))) => {
                if plan.windows && plan.mode == SpawnMode::Attached {
                    SpawnStep::AssignJob { reserved, pid }
                } else {
                    SpawnStep::ReadStartup { reserved, pid }
                }
            },
            (SpawnStep::Start { reserved }, SpawnEvent::Spawned(None)) => fail_step(reserved),
            (SpawnStep::Start { reserved }, SpawnEvent::Failed) => fail_step(reserved),
            (SpawnStep::AssignJob { reserved, pid }, SpawnEvent::Done) => {
                SpawnStep::ReadStartup { reserved, pid }
            },
            (SpawnStep::AssignJob { reserved, pid }, SpawnEvent::Failed) => {
                SpawnStep::Terminate { reserved, pid, why: GiveUp::JobAssignment }
            },
            (SpawnStep::ReadStartup { reserved, pid }, SpawnEvent::Reported(Some(reported))) => {
                if reported == pid {
                    SpawnStep::Started { pid }
                } else {
                    SpawnStep::Terminate { reserved, pid, why: GiveUp::PidMismatch { reported } }
                }
            },
            (SpawnStep::ReadStartup { reserved, pid }, SpawnEvent::Reported(None)) => {
                SpawnStep::Terminate { reserved, pid, why: GiveUp::NoStartupInfo }
            },
            (SpawnStep::ReadStartup { reserved, pid }, SpawnEvent::Failed) => {
                SpawnStep::Terminate { reserved, pid, why: GiveUp::Unreadable }
            },
            (SpawnStep::ReadStartup { reserved, pid }, SpawnEvent::TimedOut) => {
                SpawnStep::Terminate { reserved, pid, why: GiveUp::Timeout }
            },
            (SpawnStep::Terminate { reserved, .. }, SpawnEvent::Terminated) => fail_step(reserved),
            (SpawnStep::ReleaseMetrics, SpawnEvent::Done) => SpawnStep::Failed,
            _ => self,
        }
    }
}

/// The step that a list of events leads to.
pub open spec fn spawn_run(events: Seq<SpawnEvent>, plan: SpawnPlan) -> SpawnStep
    decreases events.len(),
{
    if events.len() == 0 {
        SpawnStep::Prepare(Preparation::Secrets)
    } else {
        spawn_next(spawn_run(events.drop_last(), plan), events.last(), plan)
    }
}

/// Whether a step holds a metrics slot.
pub open spec fn holds_slot(step: SpawnStep) -> bool {
    match step {
        SpawnStep::OpenTie { reserved } => reserved,
        SpawnStep::OpenStartupPipe { reserved } => reserved,
        SpawnStep::WriteConfig { reserved } => reserved,
        SpawnStep::PrepareSignals { reserved } => reserved,
        SpawnStep::Start { reserved } => reserved,
        SpawnStep::AssignJob { reserved, pid } => reserved,
        SpawnStep::ReadStartup { reserved, pid } => reserved,
        SpawnStep::Terminate { reserved, pid, why } => reserved,
        SpawnStep::ReleaseMetrics => true,
        _ => false,
    }
}

/// A reserved metrics slot is given back before a spawn fails, except where signal handling or
/// logging cannot be prepared.
pub proof fn failed_spawns_release_their_slot(step: SpawnStep, event: SpawnEvent, plan: SpawnPlan)
    requires
        holds_slot(step),
        spawn_next(step, event, plan) == SpawnStep::Failed,
    ensures
        step == SpawnStep::ReleaseMetrics || step is PrepareSignals,
{
}

/// A process that started but did not report itself is killed before the spawn fails.
pub proof fn unreported_processes_are_killed(step: SpawnStep, event: SpawnEvent, plan: SpawnPlan)
    requires
        step is ReadStartup,
    ensures
        ({
            let next = spawn_next(step, event, plan);
            ||| next == step
            ||| next == (SpawnStep::Started { pid: step->ReadStartup_pid })
            ||| next is Terminate && next->Terminate_pid == step->ReadStartup_pid
        }),
{
}

/// A spawn succeeds only for a process that was started and whose own report names its PID.
pub proof fn a_started_process_reported_its_pid(events: Seq<SpawnEvent>, plan: SpawnPlan)
    ensures
        match spawn_run(events, plan) {
            SpawnStep::Started { pid } => events.contains(SpawnEvent::Spawned(Some(pid)))
                && events.contains(SpawnEvent::Reported(Some(pid))),
            SpawnStep::AssignJob { reserved, pid } => events.contains(
                SpawnEvent::Spawned(Some(pid)),
            ),
            SpawnStep::ReadStartup { reserved, pid } => events.contains(
                SpawnEvent::Spawned(Some(pid)),
            ),
            _ => true,
        },
    decreases events.len(),
{
    if events.len() > 0 {
        let before = events.drop_last();
        a_started_process_reported_its_pid(before, plan);
        assert(events[events.len() - 1] == events.last());
        assert(events.contains(events.last()));
        assert forall|e: SpawnEvent| before.contains(e) implies events.contains(e) by {
            let i = choose|i: int| 0 <= i < before.len() && before[i] == e;
            assert(events[i] == e);
        }
    }
}

/// No process starts before every disk of the sandbox is locked.
pub proof fn disks_are_locked_before_the_start(step: SpawnStep, event: SpawnEvent, plan: SpawnPlan)
    requires
        step is Prepare,
        !(spawn_next(step, event, plan) is Prepare),
        spawn_next(step, event, plan) != SpawnStep::Failed,
    ensures
        step == SpawnStep::Prepare(Preparation::Disks) && event == SpawnEvent::Done,
{
}

/// Where a standard stream of the sandbox process leads.
#[derive(Clone, Copy, Debug, PartialEq, Eq, Structural)]
pub enum StdioTarget {
    Null,
    Piped,
    Inherited,
    /// To the end of the runtime log in the sandbox's log directory.
    RuntimeLog,
}

/// Where the standard output and error of the sandbox process lead: an attached process reports
/// its startup on standard output, a detached one keeps no tie to its creator's terminal.
pub fn stdio_targets(mode: SpawnMode) -> (r: (StdioTarget, StdioTarget))
    ensures
        r == match mode {
            SpawnMode::Attached => (StdioTarget::Piped, StdioTarget::Inherited),
            SpawnMode::Detached => (StdioTarget::Null, StdioTarget::Null),
        },
{
    match mode {
        SpawnMode::Attached => (StdioTarget::Piped, StdioTarget::Inherited),
        SpawnMode::Detached => (StdioTarget::Null, StdioTarget::Null),
    }
}

/// Where the standard output and error of the sandbox process lead on Windows: errors are logged
/// whatever the mode.
pub fn windows_stdio_targets(mode: SpawnMode) -> (r: (StdioTarget, StdioTarget))
    ensures
        r == match mode {
            SpawnMode::Attached => (StdioTarget::Piped, StdioTarget::RuntimeLog),
            SpawnMode::Detached => (StdioTarget::Null, StdioTarget::RuntimeLog),
        },
{
    match mode {
        SpawnMode::Attached => (StdioTarget::Piped, StdioTarget::RuntimeLog),
        SpawnMode::Detached => (StdioTarget::Null, StdioTarget::RuntimeLog),
    }
}

// ------------------------------------------------------------------------------------------------
// What a spawn achieves
// ------------------------------------------------------------------------------------------------

/// The preparations of a spawn come in order, all of them: secrets, binaries, what a Windows host
/// must have, directories, the writable disk, scripts, the socket, the agent pipe on Windows, staged
/// files, volumes, and the locks of the disks last.
pub proof fn spawns_prepare_everything(windows: bool)
    ensures
        ({
            let p1 = preparation_after(Preparation::Secrets, windows);
            let p2 = preparation_after(Preparation::Binaries, windows);
            let p3 = preparation_after(Preparation::Prerequisites, windows);
            let p4 = preparation_after(Preparation::Directories, windows);
            let p5 = preparation_after(Preparation::Upper, windows);
            let p6 = preparation_after(Preparation::Scripts, windows);
            let p7 = preparation_after(Preparation::Socket, windows);
            let p8 = preparation_after(Preparation::Pipe, windows);
            let p9 = preparation_after(Preparation::Files, windows);
            let p10 = preparation_after(Preparation::Volumes, windows);
            let p11 = preparation_after(Preparation::Disks, windows);
            &&& p1 == Some(Preparation::Binaries)
            &&& windows ==> p2 == Some(Preparation::Prerequisites)
            &&& !windows ==> p2 == Some(Preparation::Directories)
            &&& p3 == Some(Preparation::Directories)
            &&& p4 == Some(Preparation::Upper)
            &&& p5 == Some(Preparation::Scripts)
            &&& p6 == Some(Preparation::Socket)
            &&& windows ==> p7 == Some(Preparation::Pipe)
            &&& !windows ==> p7 == Some(Preparation::Files)
            &&& p8 == Some(Preparation::Files)
            &&& p9 == Some(Preparation::Volumes)
            &&& p10 == Some(Preparation::Disks)
            &&& p11 is None
        }),
        forall|plan: SpawnPlan| #[trigger]
            spawn_run(Seq::empty(), plan) == SpawnStep::Prepare(Preparation::Secrets),
{
}

/// A spawn whose steps all succeed starts the process: once everything is prepared a metrics slot
/// is asked for where metrics are sampled, the tie to the creator or the pipe for the report is
/// opened as the mode asks, the configuration is written, signals are prepared, the process starts,
/// an attached one is tied to its creator's job on Windows, and its own report of its own PID is
/// what makes it started.
pub proof fn smooth_spawns_start(plan: SpawnPlan, reserved: bool, pid: u32)
    ensures
        ({
            let prepared = spawn_next(
                SpawnStep::Prepare(Preparation::Disks),
                SpawnEvent::Done,
                plan,
            );
            let held = reserved && plan.samples_metrics;
            let opening = if plan.samples_metrics {
                spawn_next(prepared, SpawnEvent::Reserved(reserved), plan)
            } else {
                prepared
            };
            let opened = spawn_next(opening, SpawnEvent::Done, plan);
            let written = spawn_next(opened, SpawnEvent::Done, plan);
            let ready = spawn_next(written, SpawnEvent::Done, plan);
            let spawned = spawn_next(ready, SpawnEvent::Spawned(Some(pid)), plan);
            let tied = if plan.windows && plan.mode == SpawnMode::Attached {
                spawn_next(spawned, SpawnEvent::Done, plan)
            } else {
                spawned
            };
            &&& plan.samples_metrics ==> prepared == SpawnStep::ReserveMetrics
            &&& plan.mode == SpawnMode::Attached ==> opening == (SpawnStep::OpenTie {
                reserved: held,
            })
            &&& plan.mode == SpawnMode::Detached ==> opening == (SpawnStep::OpenStartupPipe {
                reserved: held,
            })
            &&& opened == (SpawnStep::WriteConfig { reserved: held })
            &&& written == (SpawnStep::PrepareSignals { reserved: held })
            &&& ready == (SpawnStep::Start { reserved: held })
            &&& plan.windows && plan.mode == SpawnMode::Attached ==> spawned == (
            SpawnStep::AssignJob { reserved: held, pid })
            &&& tied == (SpawnStep::ReadStartup { reserved: held, pid })
            &&& spawn_next(tied, SpawnEvent::Reported(Some(pid)), plan) == (SpawnStep::Started {
                pid,
            })
        }),
{
}

/// Each preparation that succeeds leads to the next, and one that fails fails the spawn: nothing
/// was started and nothing is held.
pub proof fn preparations_lead_on(p: Preparation, plan: SpawnPlan)
    ensures
        spawn_next(SpawnStep::Prepare(p), SpawnEvent::Failed, plan) == SpawnStep::Failed,
        preparation_after(p, plan.windows) is Some ==> spawn_next(
            SpawnStep::Prepare(p),
            SpawnEvent::Done,
            plan,
        ) == SpawnStep::Prepare(preparation_after(p, plan.windows)->0),
{
}

/// A spawn that fails after the process was started kills that process, and says why it was given
/// up; a slot that was reserved is given back; and the spawn has failed.
pub proof fn failed_spawns_clean_up(plan: SpawnPlan, reserved: bool, pid: u32, other: u32)
    requires
        other != pid,
    ensures
        ({
            let end = if reserved {
                SpawnStep::ReleaseMetrics
            } else {
                SpawnStep::Failed
            };
            let reading = SpawnStep::ReadStartup { reserved, pid };
            let given_up = |why: GiveUp| SpawnStep::Terminate { reserved, pid, why };
            &&& spawn_next(SpawnStep::OpenTie { reserved }, SpawnEvent::Failed, plan) == end
            &&& spawn_next(SpawnStep::OpenStartupPipe { reserved }, SpawnEvent::Failed, plan) == end
            &&& spawn_next(SpawnStep::WriteConfig { reserved }, SpawnEvent::Failed, plan) == end
            &&& spawn_next(SpawnStep::Start { reserved }, SpawnEvent::Failed, plan) == end
            &&& spawn_next(SpawnStep::Start { reserved }, SpawnEvent::Spawned(None), plan) == end
            &&& spawn_next(SpawnStep::PrepareSignals { reserved }, SpawnEvent::Failed, plan)
                == SpawnStep::Failed
            &&& spawn_next(SpawnStep::AssignJob { reserved, pid }, SpawnEvent::Failed, plan)
                == given_up(GiveUp::JobAssignment)
            &&& spawn_next(reading, SpawnEvent::Failed, plan) == given_up(GiveUp::Unreadable)
            &&& spawn_next(reading, SpawnEvent::TimedOut, plan) == given_up(GiveUp::Timeout)
            &&& spawn_next(reading, SpawnEvent::Reported(None), plan) == given_up(
                GiveUp::NoStartupInfo,
            )
            &&& spawn_next(reading, SpawnEvent::Reported(Some(other)), plan) == given_up(
                GiveUp::PidMismatch { reported: other },
            )
            &&& forall|why: GiveUp| #[trigger]
                spawn_next(given_up(why), SpawnEvent::Terminated, plan) == end
            &&& spawn_next(SpawnStep::ReleaseMetrics, SpawnEvent::Done, plan) == SpawnStep::Failed
        }),
{
}

/// A spawn goes by what its step asks for: other reports change nothing, and nothing follows its
/// end.
pub proof fn stray_reports_do_not_move_a_spawn(step: SpawnStep, event: SpawnEvent, plan: SpawnPlan)
    requires
        match step {
            SpawnStep::ReserveMetrics => !(event is Reserved),
            SpawnStep::Start { .. } => !(event is Spawned) && event != SpawnEvent::Failed,
            SpawnStep::ReadStartup { .. } => !(event is Reported) && event != SpawnEvent::Failed
                && event != SpawnEvent::TimedOut,
            SpawnStep::Terminate { .. } => event != SpawnEvent::Terminated,
            SpawnStep::ReleaseMetrics => event != SpawnEvent::Done,
            SpawnStep::Started { .. } => true,
            SpawnStep::Failed => true,
            _ => event != SpawnEvent::Done && event != SpawnEvent::Failed,
        },
    ensures
        spawn_next(step, event, plan) == step,
{
}

/// The writable disk of an image grows to the size that is asked for it, and to none otherwise.
pub proof fn only_managed_disks_grow(image: RootfsSource)
    ensures
        match image {
            RootfsSource::Oci(oci) => upper_size(image) == match oci.root_disk {
                Some(RootDisk::Managed { size_mib }) => size_mib,
                _ => None,
            },
            _ => upper_size(image) is None,
        },
{
}

/// The process is told where to read its configuration: a descriptor by its number, a file by its
/// path, each behind its own option.
pub proof fn configurations_are_pointed_to(fd: i32, channel: ConfigChannel)
    ensures
        channel_args(ConfigChannel::Descriptor(fd)).len() == 2,
        channel_args(ConfigChannel::Descriptor(fd))[0] == "--config-fd"@,
        crate::text::signed_value(channel_args(ConfigChannel::Descriptor(fd))[1]) == Some(
            fd as int,
        ),
        channel matches ConfigChannel::File(path) ==> channel_args(channel) == seq![
            "--config-file"@,
            path@,
        ],
{
    crate::text::lemma_signed_decimal_value(fd as int);
}

/// A failure to start says what failed, with what the host or the process said of it.
pub proof fn failed_starts_say_why(
    text: Seq<char>,
    cause: Seq<char>,
    spawned: u32,
    reported: u32,
)
    ensures
        spawn_error(SpawnFailureView::Host(text)) == ErrorView::Host(text),
        spawn_error(SpawnFailureView::Unreadable(text)) == ErrorView::Host(text),
        spawn_error(SpawnFailureView::JobCreation(cause)) == ErrorView::Runtime(
            "failed to create Windows sandbox job: "@ + cause,
        ),
        spawn_error(SpawnFailureView::JobAssignment { status: text, cause }) == ErrorView::Runtime(
            "failed to assign sandbox process to Windows job (status: "@ + text + "): "@ + cause,
        ),
        spawn_error(SpawnFailureView::ExitedImmediately) == ErrorView::Runtime(
            "sandbox process exited immediately"@,
        ),
        spawn_error(SpawnFailureView::StartupTimeout) == ErrorView::Runtime(
            "sandbox startup timeout: no JSON received within 30 seconds"@,
        ),
        spawn_error(SpawnFailureView::NoStartupInfo { line: cause, status: text })
            == ErrorView::Runtime(
            "sandbox process exited ("@ + text + ") before sending startup info (line: "@
                + quoted_text(cause) + ", check stderr above for details)"@,
        ),
        spawn_error(SpawnFailureView::PidMismatch { spawned, reported, status: text })
            == ErrorView::Runtime(
            "sandbox startup PID mismatch: spawned pid "@ + decimal(spawned as nat)
                + ", startup pid "@ + decimal(reported as nat) + " (status: "@ + text + ")"@,
        ),
{
}

/// A failure to start is seen as it is.
pub proof fn failed_starts_are_seen_as_they_are(
    text: String,
    cause: String,
    spawned: u32,
    reported: u32,
)
    ensures
        SpawnFailure::Host(text)@ == SpawnFailureView::Host(text@),
        SpawnFailure::Unreadable(text)@ == SpawnFailureView::Unreadable(text@),
        SpawnFailure::JobCreation(cause)@ == SpawnFailureView::JobCreation(cause@),
        (SpawnFailure::JobAssignment { status: text, cause })@ == (
        SpawnFailureView::JobAssignment { status: text@, cause: cause@ }),
        SpawnFailure::ExitedImmediately@ == SpawnFailureView::ExitedImmediately,
        SpawnFailure::StartupTimeout@ == SpawnFailureView::StartupTimeout,
        (SpawnFailure::NoStartupInfo { line: cause, status: text })@ == (
        SpawnFailureView::NoStartupInfo { line: cause@, status: text@ }),
        (SpawnFailure::PidMismatch { spawned, reported, status: text })@ == (
        SpawnFailureView::PidMismatch { spawned, reported, status: text@ }),
{
}

/// A process is given half a minute to send what it starts with.
pub proof fn starts_are_given_time()
    ensures
        2 * STARTUP_TIMEOUT_SECS == 60,
{
}

} // verus!
