//! Where the agent relay of a sandbox listens.

use vstd::prelude::*;
use vstd::utf8::encode_utf8;

use crate::error::{ErrorView, MicrosandboxError, MicrosandboxResult};
use crate::outside::{sha256, sha256_digest};
use crate::paths::{joined, path_join};
use crate::text::{decimal, decimal_text, hex, hex_text, push_decimal, push_signed, signed_decimal, utf8_len, views};

verus! {

/// The number of digest bytes in a socket or pipe name.
pub const SOCKET_HASH_BYTES: usize = 16;

/// How often a served pipe is probed before the launch is refused.
pub const PROBE_ATTEMPTS: u32 = 10;

/// Milliseconds between probes of a served pipe.
pub const PROBE_INTERVAL_MS: u64 = 200;

/// Error number of a pipe whose instances are all in use.
pub const ERROR_PIPE_BUSY: i32 = 231;

/// The local backend's own settings, as far as naming depends on them.
pub struct LocalBackend {
    pub run_dir: String,
    pub sandboxes_dir: String,
    pub volumes_dir: String,
    /// Bytes that a socket address holds for its path; `usize::MAX` on Windows, where agents listen
    /// on pipes.
    pub socket_path_capacity: usize,
    /// Milliseconds that a sandbox gets to stop by itself, unless it is told otherwise.
    pub stop_timeout_ms: u64,
}

/// The first digest bytes in hexadecimal.
pub open spec fn digest_text(digest: Seq<u8>) -> Seq<char> {
    hex(digest.take(SOCKET_HASH_BYTES as int))
}

/// The name that stands for a sandbox in socket and pipe names.
pub open spec fn socket_hash(name: Seq<char>) -> Seq<char> {
    digest_text(sha256_digest(encode_utf8(name)))
}

/// The socket of a sandbox in the run directory, for the given digest text.
pub open spec fn socket_path(run_dir: Seq<char>, hash: Seq<char>) -> Seq<char> {
    joined(joined(run_dir, "agent"@), hash + ".sock"@)
}

/// The socket of a sandbox in its own directory.
pub open spec fn legacy_socket_path(sandboxes_dir: Seq<char>, name: Seq<char>) -> Seq<char> {
    joined(joined(joined(sandboxes_dir, name), "runtime"@), "agent.sock"@)
}

/// The sockets of a sandbox in the order of preference.
pub open spec fn socket_candidates(
    run_dir: Seq<char>,
    sandboxes_dir: Seq<char>,
    name: Seq<char>,
) -> Seq<Seq<char>> {
    seq![socket_path(run_dir, socket_hash(name)), legacy_socket_path(sandboxes_dir, name)]
}

/// Whether a path fits in a socket address, with room for its end marker.
pub open spec fn fits(path: Seq<char>, capacity: usize) -> bool {
    utf8_len(path) < capacity
}

/// The fewest bytes that any of the paths takes.
pub open spec fn shortest(paths: Seq<Seq<char>>) -> nat
    decreases paths.len(),
{
    if paths.len() == 0 {
        0
    } else if paths.len() == 1 {
        utf8_len(paths[0])
    } else {
        let rest = shortest(paths.drop_last());
        let last = utf8_len(paths.last());
        if last < rest {
            last
        } else {
            rest
        }
    }
}

/// The first path that fits, if any does.
pub open spec fn first_fit(paths: Seq<Seq<char>>, capacity: usize) -> Option<Seq<char>>
    decreases paths.len(),
{
    if paths.len() == 0 {
        None
    } else if fits(paths[0], capacity) {
        Some(paths[0])
    } else {
        first_fit(paths.drop_first(), capacity)
    }
}

/// The failure when no path fits.
pub open spec fn too_long(paths: Seq<Seq<char>>, capacity: usize) -> ErrorView {
    ErrorView::InvalidConfig(
        "agent relay socket path is too long: shortest derived path is "@ + decimal(
            shortest(paths),
        ) + " bytes, but Unix socket paths on this platform must be shorter than "@ + decimal(
            capacity as nat,
        ) + " bytes; set MSB_HOME or paths.sandboxes to a shorter directory"@,
    )
}

/// Whether resolution gave the first candidate that fits, or failed because none does.
pub open spec fn resolves(
    r: MicrosandboxResult<String>,
    paths: Seq<Seq<char>>,
    capacity: usize,
) -> bool {
    match r {
        Ok(path) => first_fit(paths, capacity) == Some(path@),
        Err(e) => first_fit(paths, capacity) is None && e@ == too_long(paths, capacity),
    }
}

/// The path that resolution picks fits, is one of the candidates, and no earlier one fits.
pub proof fn the_first_fitting_path_is_picked(paths: Seq<Seq<char>>, capacity: usize)
    ensures
        match first_fit(paths, capacity) {
            Some(path) => exists|i: int|
                0 <= i < paths.len() && #[trigger] paths[i] == path && fits(path, capacity) && (
                forall|j: int| 0 <= j < i ==> !fits(#[trigger] paths[j], capacity)),
            None => forall|i: int| 0 <= i < paths.len() ==> !fits(#[trigger] paths[i], capacity),
        },
    decreases paths.len(),
{
    if paths.len() > 0 {
        if fits(paths[0], capacity) {
            assert(paths[0] == first_fit(paths, capacity)->0);
        } else {
            let rest = paths.drop_first();
            the_first_fitting_path_is_picked(rest, capacity);
            match first_fit(rest, capacity) {
                Some(path) => {
                    let i = choose|i: int|
                        0 <= i < rest.len() && #[trigger] rest[i] == path && fits(path, capacity)
                            && (forall|j: int|
                            0 <= j < i ==> !fits(#[trigger] rest[j], capacity));
                    assert(paths[i + 1] == path);
                    assert forall|j: int| 0 <= j < i + 1 implies !fits(
                        #[trigger] paths[j],
                        capacity,
                    ) by {
                        if j > 0 {
                            assert(paths[j] == rest[j - 1]);
                        }
                    }
                },
                None => {
                    assert forall|i: int| 0 <= i < paths.len() implies !fits(
                        #[trigger] paths[i],
                        capacity,
                    ) by {
                        if i > 0 {
                            assert(paths[i] == rest[i - 1]);
                        }
                    }
                },
            }
        }
    }
}

/// The first digest bytes in hexadecimal.
pub fn digest_name(digest: &[u8]) -> (r: String)
    requires
        digest@.len() >= SOCKET_HASH_BYTES,
    ensures
        r@ == digest_text(digest@),
{
    let mut head: Vec<u8> = Vec::new();
    let mut i: usize = 0;
    while i < SOCKET_HASH_BYTES
        invariant
            i <= SOCKET_HASH_BYTES <= digest@.len(),
            head@ == digest@.take(i as int),
        decreases SOCKET_HASH_BYTES - i,
    {
        head.push(digest[i]);
        i = i + 1;
        assert(head@ =~= digest@.take(i as int));
    }
    hex_text(head.as_slice())
}

/// The name that stands for a sandbox in socket and pipe names.
pub fn agent_socket_hash(name: &str) -> (r: String)
    ensures
        r@ == socket_hash(name@),
{
    let digest = sha256(name.as_bytes());
    digest_name(digest.as_slice())
}

/// The socket of a sandbox in the run directory.
pub fn sandbox_agent_socket_path(run_dir: &str, name: &str) -> (r: String)
    ensures
        r@ == socket_path(run_dir@, socket_hash(name@)),
{
    let mut file = agent_socket_hash(name);
    file.append(".sock");
    path_join(path_join(run_dir, "agent").as_str(), file.as_str())
}

/// The pipe of a sandbox on Windows.
pub fn sandbox_agent_pipe_path(name: &str) -> (r: String)
    ensures
        r@ == "\\\\.\\pipe\\msb-agent-"@ + socket_hash(name@),
{
    let mut out = "\\\\.\\pipe\\msb-agent-".to_owned();
    out.append(agent_socket_hash(name).as_str());
    out
}

/// The socket of a sandbox in its own directory.
pub fn legacy_sandbox_agent_socket_path(sandboxes_dir: &str, name: &str) -> (r: String)
    ensures
        r@ == legacy_socket_path(sandboxes_dir@, name@),
{
    let own = path_join(sandboxes_dir, name);
    let runtime = path_join(own.as_str(), "runtime");
    path_join(runtime.as_str(), "agent.sock")
}

/// The sockets of a sandbox in the order of preference.
///
/// A long name or a deep home directory can exceed what a socket address holds, so the socket in
/// the sandbox's own directory stays as a fallback.
pub fn sandbox_agent_socket_path_candidates_with_roots(
    run_dir: &str,
    sandboxes_dir: &str,
    name: &str,
) -> (r: Vec<String>)
    ensures
        views(r@) == socket_candidates(run_dir@, sandboxes_dir@, name@),
{
    let mut out: Vec<String> = Vec::new();
    out.push(sandbox_agent_socket_path(run_dir, name));
    out.push(legacy_sandbox_agent_socket_path(sandboxes_dir, name));
    assert(views(out@) =~= socket_candidates(run_dir@, sandboxes_dir@, name@));
    out
}

/// The sockets of a sandbox of this backend, in the order of preference.
pub fn sandbox_agent_socket_path_candidates_for(local: &LocalBackend, name: &str) -> (r: Vec<
    String,
>)
    ensures
        views(r@) == socket_candidates(local.run_dir@, local.sandboxes_dir@, name@),
{
    sandbox_agent_socket_path_candidates_with_roots(
        local.run_dir.as_str(),
        local.sandboxes_dir.as_str(),
        name,
    )
}

/// The number of bytes that a path takes in a socket address.
pub fn sandbox_agent_socket_path_len(path: &str) -> (r: usize)
    ensures
        r == utf8_len(path@),
{
    path.as_bytes().len()
}

/// Whether a path fits in a socket address.
pub fn sandbox_agent_socket_path_fits(path: &str, capacity: usize) -> (r: bool)
    ensures
        r == fits(path@, capacity),
{
    sandbox_agent_socket_path_len(path) < capacity
}

/// Picks the first socket path that this platform can use.
pub fn resolve_sandbox_agent_socket_path_from_candidates(
    candidates: Vec<String>,
    capacity: usize,
) -> (r: MicrosandboxResult<String>)
    ensures
        resolves(r, views(candidates@), capacity),
{
    let ghost all = views(candidates@);
    let mut i: usize = 0;
    assert(all.skip(0) =~= all);
    while i < candidates.len()
        invariant
            i <= candidates@.len(),
            all == views(candidates@),
            first_fit(all, capacity) == first_fit(all.skip(i as int), capacity),
        decreases candidates@.len() - i,
    {
        assert(all.skip(i as int)[0] == candidates@[i as int]@);
        assert(all.skip(i as int).drop_first() =~= all.skip(i + 1));
        if sandbox_agent_socket_path_fits(candidates[i].as_str(), capacity) {
            return Ok(candidates[i].clone());
        }
        i = i + 1;
    }
    let mut least: usize = 0;
    let mut k: usize = 0;
    while k < candidates.len()
        invariant
            k <= candidates@.len(),
            all == views(candidates@),
            least == shortest(all.take(k as int)),
        decreases candidates@.len() - k,
    {
        assert(all.take(k + 1).drop_last() =~= all.take(k as int));
        assert(all.take(k + 1).last() == candidates@[k as int]@);
        let len = sandbox_agent_socket_path_len(candidates[k].as_str());
        if k == 0 || len < least {
            least = len;
        }
        k = k + 1;
    }
    assert(all.take(k as int) =~= all);
    let mut message = "agent relay socket path is too long: shortest derived path is ".to_owned();
    push_decimal(&mut message, least as u64);
    message.append(" bytes, but Unix socket paths on this platform must be shorter than ");
    push_decimal(&mut message, capacity as u64);
    message.append(" bytes; set MSB_HOME or paths.sandboxes to a shorter directory");
    Err(MicrosandboxError::InvalidConfig(message))
}

/// Picks the pipe; pipe names have no limit, so the first candidate always serves.
pub fn resolve_sandbox_agent_pipe_from_candidates(candidates: Vec<String>) -> (r:
    MicrosandboxResult<String>)
    ensures
        match r {
            Ok(path) => candidates@.len() > 0 && path@ == candidates@[0]@,
            Err(e) => candidates@.len() == 0 && e@ == ErrorView::InvalidConfig(
                "no agent relay socket candidates were derived"@,
            ),
        },
{
    if candidates.len() > 0 {
        Ok(candidates[0].clone())
    } else {
        Err(
            MicrosandboxError::InvalidConfig(
                "no agent relay socket candidates were derived".to_owned(),
            ),
        )
    }
}

/// Picks the first socket path of a sandbox of this backend that the platform can use.
pub fn resolve_sandbox_agent_socket_path_for(local: &LocalBackend, name: &str) -> (r:
    MicrosandboxResult<String>)
    ensures
        resolves(
            r,
            socket_candidates(local.run_dir@, local.sandboxes_dir@, name@),
            local.socket_path_capacity,
        ),
{
    let candidates = sandbox_agent_socket_path_candidates_for(local, name);
    resolve_sandbox_agent_socket_path_from_candidates(candidates, local.socket_path_capacity)
}

/// The run and sandbox directories of the ambient backend: its own where it is local, else the
/// usual places below the home directory.
pub fn ambient_roots(
    local: Option<&LocalBackend>,
    home: &str,
    run_subdir: &str,
    sandboxes_subdir: &str,
) -> (r: (String, String))
    ensures
        match local {
            Some(l) => r.0@ == l.run_dir@ && r.1@ == l.sandboxes_dir@,
            None => r.0@ == joined(home@, run_subdir@) && r.1@ == joined(home@, sandboxes_subdir@),
        },
{
    match local {
        Some(l) => (l.run_dir.clone(), l.sandboxes_dir.clone()),
        None => (path_join(home, run_subdir), path_join(home, sandboxes_subdir)),
    }
}

/// Picks the first socket path of a sandbox below the given roots that the platform can use.
pub fn resolve_sandbox_agent_socket_path(
    run_dir: &str,
    sandboxes_dir: &str,
    name: &str,
    capacity: usize,
) -> (r: MicrosandboxResult<String>)
    ensures
        resolves(r, socket_candidates(run_dir@, sandboxes_dir@, name@), capacity),
{
    let candidates = sandbox_agent_socket_path_candidates_with_roots(run_dir, sandboxes_dir, name);
    resolve_sandbox_agent_socket_path_from_candidates(candidates, capacity)
}

// ------------------------------------------------------------------------------------------------
// Pipes
// ------------------------------------------------------------------------------------------------

/// The bytes of a 32-bit integer, lowest first.
pub open spec fn low_bytes_first(n: i32) -> Seq<u8> {
    let u = n as u32;
    seq![
        (u % 256) as u8,
        ((u / 256) % 256) as u8,
        ((u / 65536) % 256) as u8,
        (u / 16777216) as u8,
    ]
}

/// What the name of a startup pipe is the digest of.
pub open spec fn startup_seed(name: Seq<char>, id: i32, nonce: Seq<u8>) -> Seq<u8> {
    encode_utf8(name) + seq![0u8] + low_bytes_first(id) + nonce
}

/// The name of a startup pipe with the given digest.
pub open spec fn startup_pipe_text(id: i32, digest: Seq<u8>) -> Seq<char> {
    "\\\\.\\pipe\\msb-startup-"@ + signed_decimal(id as int) + "-"@ + digest_text(digest)
}

/// The name of a startup pipe with the given digest.
pub fn startup_pipe_from_digest(sandbox_id: i32, digest: &[u8]) -> (r: String)
    requires
        digest@.len() >= SOCKET_HASH_BYTES,
    ensures
        r@ == startup_pipe_text(sandbox_id, digest@),
{
    let mut out = "\\\\.\\pipe\\msb-startup-".to_owned();
    push_signed(&mut out, sandbox_id as i64);
    out.append("-");
    out.append(digest_name(digest).as_str());
    out
}

/// The name of the startup pipe of a sandbox; the nonce keeps it unpredictable.
pub fn startup_pipe_name(sandbox_name: &str, sandbox_id: i32, nonce: &[u8]) -> (r: String)
    ensures
        r@ == startup_pipe_text(
            sandbox_id,
            sha256_digest(startup_seed(sandbox_name@, sandbox_id, nonce@)),
        ),
{
    let name = sandbox_name.as_bytes();
    let mut seed: Vec<u8> = Vec::new();
    let mut i: usize = 0;
    while i < name.len()
        invariant
            i <= name@.len(),
            seed@ == name@.take(i as int),
        decreases name@.len() - i,
    {
        seed.push(name[i]);
        i = i + 1;
        assert(seed@ =~= name@.take(i as int));
    }
    assert(seed@ =~= name@);
    seed.push(0);
    let u = sandbox_id as u32;
    seed.push((u % 256) as u8);
    seed.push(((u / 256) % 256) as u8);
    seed.push(((u / 65536) % 256) as u8);
    seed.push((u / 16777216) as u8);
    let ghost front = encode_utf8(sandbox_name@) + seq![0u8] + low_bytes_first(sandbox_id);
    assert(seed@ =~= front);
    let mut k: usize = 0;
    while k < nonce.len()
        invariant
            k <= nonce@.len(),
            seed@ == front + nonce@.take(k as int),
        decreases nonce@.len() - k,
    {
        seed.push(nonce[k]);
        k = k + 1;
        assert(seed@ =~= front + nonce@.take(k as int));
    }
    assert(seed@ =~= startup_seed(sandbox_name@, sandbox_id, nonce@));
    let digest = sha256(seed.as_slice());
    startup_pipe_from_digest(sandbox_id, digest.as_slice())
}

/// What opening a pipe as a client revealed.
#[derive(Clone, Copy, Debug, PartialEq, Eq, Structural)]
pub enum AgentPipeProbe {
    /// No server holds the name.
    Free,
    /// A live server holds the name; its PID where it can be told.
    Served { server_pid: Option<u32> },
}

/// The result of opening a pipe as a client.
#[derive(Clone, Copy, Debug, PartialEq, Eq, Structural)]
pub enum PipeOpen {
    /// It opened; the PID of its server where it can be told.
    Opened { server_pid: Option<u32> },
    NotFound,
    /// Another failure, with its error number.
    Failed(i32),
}

/// What opening a pipe as a client reveals. A pipe that is busy has a live server too.
pub fn probe_agent_pipe_server(open: PipeOpen) -> (r: Result<AgentPipeProbe, i32>)
    ensures
        r == match open {
            PipeOpen::Opened { server_pid } => Ok::<AgentPipeProbe, i32>(
                AgentPipeProbe::Served { server_pid },
            ),
            PipeOpen::NotFound => Ok(AgentPipeProbe::Free),
            PipeOpen::Failed(errno) => if errno == ERROR_PIPE_BUSY {
                Ok(AgentPipeProbe::Served { server_pid: None })
            } else {
                Err(errno)
            },
        },
{
    match open {
        PipeOpen::Opened { server_pid } => Ok(AgentPipeProbe::Served { server_pid }),
        PipeOpen::NotFound => Ok(AgentPipeProbe::Free),
        PipeOpen::Failed(errno) => {
            if errno == ERROR_PIPE_BUSY {
                Ok(AgentPipeProbe::Served { server_pid: None })
            } else {
                Err(errno)
            }
        },
    }
}

/// What to do about the pipe of a sandbox before it launches.
#[derive(Clone, Copy, Debug, PartialEq, Eq, Structural)]
pub enum PipeCheck {
    /// Probe the pipe; this many probes found it served.
    Probe { served: u32 },
    /// Wait, then probe again.
    Wait { served: u32 },
    /// Launch.
    Clear,
    /// Refuse: a stale process serves the pipe, with this PID as far as known.
    Claimed { server_pid: Option<u32> },
}

/// What follows a probe. An unexpected failure does not block the launch: if the name really is
/// taken, the sandbox process fails on its own.
pub open spec fn after_probe(served: u32, probe: Result<AgentPipeProbe, i32>) -> PipeCheck {
    match probe {
        Ok(AgentPipeProbe::Free) => PipeCheck::Clear,
        Err(_) => PipeCheck::Clear,
        Ok(AgentPipeProbe::Served { server_pid }) => if served + 1 < PROBE_ATTEMPTS {
            PipeCheck::Wait { served: (served + 1) as u32 }
        } else {
            PipeCheck::Claimed { server_pid }
        },
    }
}

impl PipeCheck {
    /// Begins the check.
    pub fn new() -> (r: PipeCheck)
        ensures
            r == (PipeCheck::Probe { served: 0 }),
    {
        PipeCheck::Probe { served: 0 }
    }

    /// Takes the result of a probe into account; only a probe asks for one.
    pub fn probed(self, probe: Result<AgentPipeProbe, i32>) -> (r: PipeCheck)
        ensures
            r == match self {
                PipeCheck::Probe { served } => after_probe(served, probe),
                _ => self,
            },
    {
        match self {
            PipeCheck::Probe { served } => match probe {
                Ok(AgentPipeProbe::Free) => PipeCheck::Clear,
                Err(_) => PipeCheck::Clear,
                Ok(AgentPipeProbe::Served { server_pid }) => {
                    if served < PROBE_ATTEMPTS - 1 {
                        PipeCheck::Wait { served: served + 1 }
                    } else {
                        PipeCheck::Claimed { server_pid }
                    }
                },
            },
            _ => self,
        }
    }

    /// Goes on after a wait.
    pub fn waited(self) -> (r: PipeCheck)
        ensures
            r == match self {
                PipeCheck::Wait { served } => PipeCheck::Probe { served },
                _ => self,
            },
    {
        match self {
            PipeCheck::Wait { served } => PipeCheck::Probe { served },
            _ => self,
        }
    }
}

/// The check after a number of probes, with a wait after each that asks for one.
pub open spec fn pipe_check_run(probes: Seq<Result<AgentPipeProbe, i32>>) -> PipeCheck
    decreases probes.len(),
{
    if probes.len() == 0 {
        PipeCheck::Probe { served: 0 }
    } else {
        match pipe_check_run(probes.drop_last()) {
            PipeCheck::Probe { served } => after_probe(served, probes.last()),
            PipeCheck::Wait { served } => after_probe(served, probes.last()),
            done => done,
        }
    }
}

/// A launch is refused only after every one of the probes found a server.
pub proof fn refusal_takes_every_probe(probes: Seq<Result<AgentPipeProbe, i32>>)
    ensures
        match pipe_check_run(probes) {
            PipeCheck::Probe { served } => served == 0 && probes.len() == 0,
            PipeCheck::Wait { served } => served == probes.len() && served < PROBE_ATTEMPTS && (
            forall|i: int| 0 <= i < probes.len() ==> #[trigger] probes[i] is Ok && probes[i]->Ok_0
                is Served),
            PipeCheck::Claimed { server_pid } => probes.len() >= PROBE_ATTEMPTS && (forall|i: int|
                0 <= i < PROBE_ATTEMPTS ==> #[trigger] probes[i] is Ok && probes[i]->Ok_0
                    is Served),
            PipeCheck::Clear => true,
        },
    decreases probes.len(),
{
    if probes.len() > 0 {
        let before = probes.drop_last();
        refusal_takes_every_probe(before);
        assert forall|i: int| 0 <= i < before.len() implies before[i] == #[trigger] probes[i] by {
        }
        assert(probes[probes.len() - 1] == probes.last());
    }
}

/// The failure when a stale process serves the pipe of a sandbox.
pub open spec fn pipe_claimed(
    pipe: Seq<char>,
    name: Seq<char>,
    server_pid: Option<u32>,
) -> ErrorView {
    ErrorView::Runtime(
        "agent pipe "@ + pipe + " for sandbox '"@ + name
            + "' is already being served by a stale sandbox process"@ + (match server_pid {
            Some(pid) => " (pid "@ + decimal(pid as nat) + ")"@,
            None => Seq::empty(),
        }) + "; terminate that process and retry"@,
    )
}

/// The failure when a stale process serves the pipe of a sandbox.
pub fn pipe_claimed_error(pipe: &str, name: &str, server_pid: Option<u32>) -> (r:
    MicrosandboxError)
    ensures
        r@ == pipe_claimed(pipe@, name@, server_pid),
{
    let mut message = "agent pipe ".to_owned();
    message.append(pipe);
    message.append(" for sandbox '");
    message.append(name);
    message.append("' is already being served by a stale sandbox process");
    let ghost front = message@;
    if let Some(pid) = server_pid {
        message.append(" (pid ");
        message.append(decimal_text(pid as u64).as_str());
        message.append(")");
    }
    assert(message@ =~= front + (match server_pid {
        Some(pid) => " (pid "@ + decimal(pid as nat) + ")"@,
        None => Seq::empty(),
    }));
    message.append("; terminate that process and retry");
    MicrosandboxError::Runtime(message)
}

// ------------------------------------------------------------------------------------------------
// Where an agent is found
// ------------------------------------------------------------------------------------------------

/// The socket in the run directory is preferred and the one in the sandbox's own directory is the
/// fallback. Which one is used depends on room alone: a path fits where its bytes are fewer than
/// the address holds.
pub proof fn run_sockets_are_preferred(
    run_dir: Seq<char>,
    sandboxes_dir: Seq<char>,
    name: Seq<char>,
    capacity: usize,
)
    ensures
        ({
            let short = joined(joined(run_dir, "agent"@), socket_hash(name) + ".sock"@);
            let own = joined(joined(joined(sandboxes_dir, name), "runtime"@), "agent.sock"@);
            let paths = socket_candidates(run_dir, sandboxes_dir, name);
            &&& paths == seq![short, own]
            &&& utf8_len(short) < capacity ==> first_fit(paths, capacity) == Some(short)
            &&& utf8_len(short) >= capacity && utf8_len(own) < capacity ==> first_fit(
                paths,
                capacity,
            ) == Some(own)
            &&& utf8_len(short) >= capacity && utf8_len(own) >= capacity ==> first_fit(
                paths,
                capacity,
            ) is None
        }),
{
    let paths = socket_candidates(run_dir, sandboxes_dir, name);
    let rest = paths.drop_first();
    assert(rest[0] == paths[1]);
    assert(rest.len() == 1);
    assert(first_fit(rest.drop_first(), capacity) is None);
    assert(first_fit(rest, capacity) == if fits(paths[1], capacity) {
        Some(paths[1])
    } else {
        None
    });
    assert(first_fit(paths, capacity) == if fits(paths[0], capacity) {
        Some(paths[0])
    } else {
        first_fit(rest, capacity)
    });
}

/// The path that is said to be the shortest is one of them, and none is shorter.
pub proof fn the_shortest_path_is_named(paths: Seq<Seq<char>>)
    requires
        paths.len() > 0,
    ensures
        exists|i: int| 0 <= i < paths.len() && utf8_len(#[trigger] paths[i]) == shortest(paths),
        forall|i: int| 0 <= i < paths.len() ==> shortest(paths) <= utf8_len(#[trigger] paths[i]),
    decreases paths.len(),
{
    if paths.len() > 1 {
        let before = paths.drop_last();
        the_shortest_path_is_named(before);
        let k = choose|i: int|
            0 <= i < before.len() && utf8_len(#[trigger] before[i]) == shortest(before);
        assert(before[k] == paths[k]);
        assert(paths[paths.len() - 1] == paths.last());
        assert forall|i: int| 0 <= i < paths.len() implies shortest(paths) <= utf8_len(
            #[trigger] paths[i],
        ) by {
            if i < before.len() {
                assert(before[i] == paths[i]);
            }
        }
    } else {
        assert(utf8_len(paths[0]) == shortest(paths));
    }
}

/// The name of a socket or pipe is made of the first sixteen bytes of a digest, so that digests
/// which differ there have different names.
pub proof fn digests_name_their_sockets(a: Seq<u8>, b: Seq<u8>)
    requires
        a.len() >= 16,
        b.len() >= 16,
    ensures
        digest_text(a).len() == 32,
        digest_text(a) == digest_text(b) <==> a.take(16) == b.take(16),
{
    if digest_text(a) == digest_text(b) {
        crate::text::hex_tells_bytes_apart(a.take(16), b.take(16));
    }
}

/// What names a startup pipe depends on all that makes it: the name, the id behind it, and the
/// nonce at its end.
pub proof fn startup_pipes_have_their_own_seed(
    name: Seq<char>,
    id: i32,
    nonce: Seq<u8>,
    other_nonce: Seq<u8>,
)
    ensures
        startup_seed(name, id, nonce) == encode_utf8(name) + seq![0u8] + low_bytes_first(id)
            + nonce,
        nonce != other_nonce ==> startup_seed(name, id, nonce) != startup_seed(
            name,
            id,
            other_nonce,
        ),
{
    let front = encode_utf8(name) + seq![0u8] + low_bytes_first(id);
    let a = front + nonce;
    let b = front + other_nonce;
    if a == b {
        assert(nonce =~= a.skip(front.len() as int));
        assert(other_nonce =~= b.skip(front.len() as int));
    }
}

/// A number is kept by its bytes, the lowest first.
pub proof fn low_bytes_keep_the_number(n: i32)
    ensures
        ({
            let b = low_bytes_first(n);
            b.len() == 4 && b[0] as int + 256 * b[1] as int + 65536 * b[2] as int + 16777216
                * b[3] as int == n as u32
        }),
{
}

/// A pipe that is free, and one that cannot be judged, do not block a launch; one that is served is
/// given time, up to ten looks; and one that is served at every look blocks it, with the PID that
/// was seen last.
pub proof fn pipes_are_given_time(served: u32, server_pid: Option<u32>, errno: i32)
    ensures
        after_probe(served, Ok(AgentPipeProbe::Free)) == PipeCheck::Clear,
        after_probe(served, Err(errno)) == PipeCheck::Clear,
        served < 9 ==> after_probe(served, Ok(AgentPipeProbe::Served { server_pid })) == (
        PipeCheck::Wait { served: (served + 1) as u32 }),
        served >= 9 && served < u32::MAX ==> after_probe(
            served,
            Ok(AgentPipeProbe::Served { server_pid }),
        ) == (PipeCheck::Claimed { server_pid }),
{
}

/// A pipe that another process serves is refused with its name, the sandbox and, where it is known,
/// that process; a directory that leaves no room with the shortest path there would be and the
/// limit.
pub proof fn refused_endpoints_are_named(
    pipe: Seq<char>,
    name: Seq<char>,
    pid: u32,
    paths: Seq<Seq<char>>,
    capacity: usize,
)
    ensures
        pipe_claimed(pipe, name, None) == ErrorView::Runtime(
            "agent pipe "@ + pipe + " for sandbox '"@ + name
                + "' is already being served by a stale sandbox process"@
                + "; terminate that process and retry"@,
        ),
        pipe_claimed(pipe, name, Some(pid)) == ErrorView::Runtime(
            "agent pipe "@ + pipe + " for sandbox '"@ + name
                + "' is already being served by a stale sandbox process"@ + (" (pid "@ + decimal(
                pid as nat,
            ) + ")"@) + "; terminate that process and retry"@,
        ),
        too_long(paths, capacity) == ErrorView::InvalidConfig(
            "agent relay socket path is too long: shortest derived path is "@ + decimal(
                shortest(paths),
            ) + " bytes, but Unix socket paths on this platform must be shorter than "@ + decimal(
                capacity as nat,
            ) + " bytes; set MSB_HOME or paths.sandboxes to a shorter directory"@,
        ),
{
    let front = "agent pipe "@ + pipe + " for sandbox '"@ + name
        + "' is already being served by a stale sandbox process"@;
    assert(front + Seq::<char>::empty() =~= front);
}

/// The pipe of a startup is named after the process that waits at it and the digest.
pub proof fn startup_pipes_name_their_process(id: i32, digest: Seq<u8>)
    ensures
        startup_pipe_text(id, digest) == "\\\\.\\pipe\\msb-startup-"@ + signed_decimal(id as int) + "-"@
            + digest_text(digest),
{
}

/// A pipe is looked at for two seconds in all, and one whose instances are all in use is told by
/// the host's own number.
pub proof fn pipes_are_looked_at_in_steps()
    ensures
        PROBE_ATTEMPTS * PROBE_INTERVAL_MS == 2_000,
        PROBE_ATTEMPTS == 10,
        ERROR_PIPE_BUSY == 231,
{
}

} // verus!
