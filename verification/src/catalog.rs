//! Sandbox records: their states, pages and labels.

use std::collections::HashMap;

use vstd::prelude::*;
use vstd::utf8::{encode_utf8, is_ascii_chars, is_ascii_chars_encode_utf8};

use crate::error::{failure, ErrorView, MicrosandboxError, MicrosandboxResult};
use crate::outside::{
    base64url_bytes, base64url_decode, base64url_encode, base64url_text, quoted, quoted_text,
};
use crate::text::{
    decimal, lemma_signed_decimal_value, parse_i32, push_signed, same, signed_decimal, signed_text,
    signed_value, string_of,
};
use crate::types::{RootDisk, RootfsSource, SandboxConfig, SandboxStatus};

verus! {

broadcast use vstd::std_specs::hash::group_hash_axioms;

// ------------------------------------------------------------------------------------------------
// Identity
// ------------------------------------------------------------------------------------------------

/// Which sandbox a handle stands for, beyond its name.
pub enum SandboxIdentity {
    /// A row of the local catalog.
    Local(i32),
    /// A sandbox of the cloud.
    Cloud(String),
}

/// The row of a local sandbox.
pub fn local_identity(identity: SandboxIdentity) -> (r: MicrosandboxResult<i32>)
    ensures
        match identity {
            SandboxIdentity::Local(id) => r == Ok::<i32, MicrosandboxError>(id),
            SandboxIdentity::Cloud(id) => failure(r) == Some(
                ErrorView::Runtime(
                    "cloud sandbox identity "@ + quoted_text(id@)
                        + " was routed to the local backend"@,
                ),
            ),
        },
{
    match identity {
        SandboxIdentity::Local(id) => Ok(id),
        SandboxIdentity::Cloud(id) => {
            let mut message = "cloud sandbox identity ".to_owned();
            message.append(quoted(id.as_str()).as_str());
            message.append(" was routed to the local backend");
            Err(MicrosandboxError::Runtime(message))
        },
    }
}

/// The failure of an operation on a name that was given to another sandbox.
pub open spec fn replaced(name: Seq<char>, expected_id: i32, actual_id: i32) -> ErrorView {
    ErrorView::SandboxReplaced {
        name,
        expected: "local:"@ + signed_decimal(expected_id as int),
        actual: "local:"@ + signed_decimal(actual_id as int),
    }
}

/// The failure of an operation on a name that was given to another sandbox.
pub fn sandbox_replaced(name: &str, expected_id: i32, actual_id: i32) -> (r: MicrosandboxError)
    ensures
        r@ == replaced(name@, expected_id, actual_id),
{
    let mut expected = "local:".to_owned();
    push_signed(&mut expected, expected_id as i64);
    let mut actual = "local:".to_owned();
    push_signed(&mut actual, actual_id as i64);
    MicrosandboxError::SandboxReplaced { name: name.to_owned(), expected, actual }
}

/// Whether an operation that expects a certain row may go on with the row that was found.
pub open spec fn identity_failure(
    name: Seq<char>,
    expected_id: Option<i32>,
    actual_id: i32,
) -> Option<ErrorView> {
    match expected_id {
        Some(expected) => if expected != actual_id {
            Some(replaced(name, expected, actual_id))
        } else {
            None
        },
        None => None,
    }
}

/// Refuses a row that is not the expected one.
pub fn ensure_local_identity(name: &str, expected_id: Option<i32>, actual_id: i32) -> (r:
    MicrosandboxResult<()>)
    ensures
        failure(r) == identity_failure(name@, expected_id, actual_id),
{
    match expected_id {
        Some(expected) => {
            if expected != actual_id {
                Err(sandbox_replaced(name, expected, actual_id))
            } else {
                Ok(())
            }
        },
        None => Ok(()),
    }
}

// ------------------------------------------------------------------------------------------------
// States
// ------------------------------------------------------------------------------------------------

/// The part of a sandbox record that depends on its runtime.
#[derive(Clone, Copy, Debug, PartialEq, Eq, Structural)]
pub struct RuntimeRow {
    pub id: i32,
    pub status: SandboxStatus,
    pub network_slot: Option<u16>,
    /// Whether the configuration of the running machine is recorded.
    pub has_active_config: bool,
}

/// Why a run ended.
#[derive(Clone, Copy, Debug, PartialEq, Eq, Structural)]
pub enum TerminationReason {
    ShutdownRequested,
    Signal,
    Failed,
    InternalError,
}

/// Whether a record claims that a runtime is at work.
pub open spec fn is_active(status: SandboxStatus) -> bool {
    status == SandboxStatus::Starting || status == SandboxStatus::Running || status
        == SandboxStatus::Draining
}

/// Whether a record claims that a runtime is at work.
pub fn status_is_active(status: SandboxStatus) -> (r: bool)
    ensures
        r == is_active(status),
{
    status == SandboxStatus::Starting || status == SandboxStatus::Running || status
        == SandboxStatus::Draining
}

/// Whether a sandbox in this state can be started.
pub open spec fn is_startable(status: SandboxStatus) -> bool {
    status == SandboxStatus::Created || status == SandboxStatus::Stopped || status
        == SandboxStatus::Crashed
}

/// Whether a sandbox in this state can be started.
pub fn status_is_startable(status: SandboxStatus) -> (r: bool)
    ensures
        r == is_startable(status),
{
    status == SandboxStatus::Created || status == SandboxStatus::Stopped || status
        == SandboxStatus::Crashed
}

/// Whether a record in this state keeps what belongs to a running machine.
pub open spec fn keeps_runtime_state(status: SandboxStatus) -> bool {
    is_active(status) || status == SandboxStatus::Paused
}

/// The record without what belongs to a running machine.
pub open spec fn cleared(row: RuntimeRow, status: SandboxStatus) -> RuntimeRow {
    RuntimeRow { status, network_slot: None, has_active_config: false, ..row }
}

/// The state of a record whose runtime is gone. A drain or stop had been accepted already, so a
/// draining sandbox reached what was asked for.
pub open spec fn terminal_state(status: SandboxStatus) -> (SandboxStatus, TerminationReason) {
    if status == SandboxStatus::Draining {
        (SandboxStatus::Stopped, TerminationReason::ShutdownRequested)
    } else {
        (SandboxStatus::Crashed, TerminationReason::InternalError)
    }
}

/// The state of a record whose runtime is gone, and why its run ended.
pub fn stale_runtime_terminal_state(status: SandboxStatus) -> (r: (
    SandboxStatus,
    TerminationReason,
))
    ensures
        r == terminal_state(status),
{
    match status {
        SandboxStatus::Draining => (SandboxStatus::Stopped, TerminationReason::ShutdownRequested),
        _ => (SandboxStatus::Crashed, TerminationReason::InternalError),
    }
}

/// Retires a record whose runtime is gone. A record that is no longer active stays: another
/// process has dealt with it.
pub fn mark_sandbox_runtime_stale(row: RuntimeRow, terminal: SandboxStatus) -> (r: RuntimeRow)
    ensures
        r == if is_active(row.status) {
            cleared(row, terminal)
        } else {
            row
        },
{
    if status_is_active(row.status) {
        RuntimeRow { id: row.id, status: terminal, network_slot: None, has_active_config: false }
    } else {
        row
    }
}

/// The record and whether it moved.
pub open spec fn compared_and_set(
    status: SandboxStatus,
    expected: Seq<SandboxStatus>,
    next: SandboxStatus,
) -> (SandboxStatus, bool) {
    if expected.contains(status) {
        (next, true)
    } else {
        (status, false)
    }
}

/// Moves a record to another state only where its present one is expected.
pub fn compare_and_set_sandbox_status(
    status: SandboxStatus,
    expected: &[SandboxStatus],
    next: SandboxStatus,
) -> (r: (SandboxStatus, bool))
    ensures
        r == compared_and_set(status, expected@, next),
{
    let mut i: usize = 0;
    while i < expected.len()
        invariant
            i <= expected@.len(),
            forall|k: int| 0 <= k < i ==> expected@[k] != status,
        decreases expected@.len() - i,
    {
        if expected[i] == status {
            assert(expected@[i as int] == status);
            return (next, true);
        }
        i = i + 1;
    }
    (status, false)
}

/// The states from which a start may be claimed.
pub open spec fn startable_states() -> Seq<SandboxStatus> {
    seq![SandboxStatus::Created, SandboxStatus::Stopped, SandboxStatus::Crashed]
}

/// The state after a number of attempts to move a record on from an expected state, and how many
/// of them succeeded.
pub open spec fn claims(
    status: SandboxStatus,
    expected: Seq<SandboxStatus>,
    next: SandboxStatus,
    attempts: nat,
) -> (SandboxStatus, nat)
    decreases attempts,
{
    if attempts == 0 {
        (status, 0)
    } else {
        let (before, won) = claims(status, expected, next, (attempts - 1) as nat);
        let (after, claimed) = compared_and_set(before, expected, next);
        (
            after,
            if claimed {
                won + 1
            } else {
                won
            },
        )
    }
}

/// Of any number of attempts to move a record on, exactly one succeeds where the record is in an
/// expected state, and none where it is not. The state moved to must not itself be expected.
pub proof fn at_most_one_attempt_wins(
    status: SandboxStatus,
    expected: Seq<SandboxStatus>,
    next: SandboxStatus,
    attempts: nat,
)
    requires
        !expected.contains(next),
    ensures
        claims(status, expected, next, attempts) == if expected.contains(status) && attempts > 0 {
            (next, 1nat)
        } else {
            (status, 0nat)
        },
    decreases attempts,
{
    if attempts > 0 {
        at_most_one_attempt_wins(status, expected, next, (attempts - 1) as nat);
    }
}

/// Of any number of attempts to claim the start of a sandbox at rest, exactly one succeeds.
pub proof fn exactly_one_start_is_claimed(status: SandboxStatus, attempts: nat)
    requires
        is_startable(status),
        attempts > 0,
    ensures
        claims(status, startable_states(), SandboxStatus::Starting, attempts) == (
            SandboxStatus::Starting,
            1nat,
        ),
{
    let states = startable_states();
    assert(states[0] == SandboxStatus::Created);
    assert(states[1] == SandboxStatus::Stopped);
    assert(states[2] == SandboxStatus::Crashed);
    assert(states.contains(status));
    assert(!states.contains(SandboxStatus::Starting));
    at_most_one_attempt_wins(status, states, SandboxStatus::Starting, attempts);
}

/// Gives a record another state, without asking for the present one.
pub fn update_sandbox_status(row: RuntimeRow, status: SandboxStatus) -> (r: RuntimeRow)
    ensures
        r == if keeps_runtime_state(status) {
            RuntimeRow { status, ..row }
        } else {
            cleared(row, status)
        },
{
    if status_is_active(status) || status == SandboxStatus::Paused {
        RuntimeRow {
            id: row.id,
            status,
            network_slot: row.network_slot,
            has_active_config: row.has_active_config,
        }
    } else {
        RuntimeRow { id: row.id, status, network_slot: None, has_active_config: false }
    }
}

/// Moves a running record to draining; every other one stays.
pub fn mark_sandbox_draining_if_running(row: RuntimeRow) -> (r: RuntimeRow)
    ensures
        r == if row.status == SandboxStatus::Running {
            RuntimeRow { status: SandboxStatus::Draining, ..row }
        } else {
            row
        },
{
    if row.status == SandboxStatus::Running {
        RuntimeRow {
            id: row.id,
            status: SandboxStatus::Draining,
            network_slot: row.network_slot,
            has_active_config: row.has_active_config,
        }
    } else {
        row
    }
}

/// Stops the record of a sandbox that is about to be replaced.
pub fn mark_sandbox_stopped_for_replacement(row: RuntimeRow) -> (r: RuntimeRow)
    ensures
        r == cleared(row, SandboxStatus::Stopped),
{
    RuntimeRow {
        id: row.id,
        status: SandboxStatus::Stopped,
        network_slot: None,
        has_active_config: false,
    }
}

/// Records what the running machine was configured with. A catalog without room for it is left as
/// it is.
pub fn update_sandbox_active_config(row: Option<RuntimeRow>, has_column: bool) -> (r:
    MicrosandboxResult<Option<RuntimeRow>>)
    ensures
        match row {
            _ if !has_column => r == Ok::<Option<RuntimeRow>, MicrosandboxError>(row),
            None => failure(r) == Some(
                ErrorView::Runtime(
                    "sandbox disappeared before recording its active configuration"@,
                ),
            ),
            Some(found) => r == Ok::<Option<RuntimeRow>, MicrosandboxError>(
                Some(RuntimeRow { has_active_config: true, ..found }),
            ),
        },
{
    if !has_column {
        return Ok(row);
    }
    match row {
        None => Err(
            MicrosandboxError::Runtime(
                "sandbox disappeared before recording its active configuration".to_owned(),
            ),
        ),
        Some(found) => Ok(
            Some(
                RuntimeRow {
                    id: found.id,
                    status: found.status,
                    network_slot: found.network_slot,
                    has_active_config: true,
                },
            ),
        ),
    }
}

/// A record that comes to rest keeps no network slot and no running configuration.
pub proof fn records_at_rest_hold_nothing(row: RuntimeRow, status: SandboxStatus)
    requires
        !keeps_runtime_state(status),
    ensures
        cleared(row, status).network_slot is None,
        !cleared(row, status).has_active_config,
        cleared(row, status).id == row.id,
{
}

// ------------------------------------------------------------------------------------------------
// Starting from rest
// ------------------------------------------------------------------------------------------------

/// What is known of the stitched disk of an image.
pub enum VmdkFact {
    /// The cache or the digest cannot be read, so nothing is known.
    Unknown,
    /// Its path, and whether it is there.
    At { path: String, exists: bool },
}

/// What keeps a sandbox from starting from what is on disk.
pub open spec fn start_state_failure(
    config: SandboxConfig,
    sandbox_dir: Seq<char>,
    dir_exists: bool,
    vmdk: VmdkFact,
) -> Option<ErrorView> {
    if !dir_exists {
        Some(
            ErrorView::Custom(
                "sandbox state missing for '"@ + config.spec.name@ + "': "@ + sandbox_dir,
            ),
        )
    } else if needs_vmdk(config) && vmdk is At && !vmdk->exists {
        Some(
            ErrorView::Custom(
                "sandbox '"@ + config.spec.name@ + "' cannot start: VMDK missing: "@ + vmdk->path@,
            ),
        )
    } else {
        None
    }
}

/// Whether a sandbox boots through the stitched disk of its image. A flat root owns its disk and
/// never does.
pub open spec fn needs_vmdk(config: SandboxConfig) -> bool {
    match config.spec.image {
        RootfsSource::Oci(oci) => !(oci.root_disk matches Some(RootDisk::Flat { .. }))
            && config.manifest_digest is Some,
        _ => false,
    }
}

/// Checks what is on disk before a stopped sandbox starts.
pub fn validate_start_state(
    config: &SandboxConfig,
    sandbox_dir: &str,
    dir_exists: bool,
    vmdk: &VmdkFact,
) -> (r: MicrosandboxResult<()>)
    ensures
        failure(r) == start_state_failure(*config, sandbox_dir@, dir_exists, *vmdk),
{
    if !dir_exists {
        let mut message = "sandbox state missing for '".to_owned();
        message.append(config.spec.name.as_str());
        message.append("': ");
        message.append(sandbox_dir);
        return Err(MicrosandboxError::Custom(message));
    }
    let needed = match &config.spec.image {
        RootfsSource::Oci(oci) => {
            let flat = match &oci.root_disk {
                Some(RootDisk::Flat { .. }) => true,
                _ => false,
            };
            !flat && config.manifest_digest.is_some()
        },
        _ => false,
    };
    if needed {
        if let VmdkFact::At { path, exists } = vmdk {
            if !*exists {
                let mut message = "sandbox '".to_owned();
                message.append(config.spec.name.as_str());
                message.append("' cannot start: VMDK missing: ");
                message.append(path.as_str());
                return Err(MicrosandboxError::Custom(message));
            }
        }
    }
    Ok(())
}

// ------------------------------------------------------------------------------------------------
// Pages
// ------------------------------------------------------------------------------------------------

/// The bytes as characters, one for one.
pub open spec fn as_chars(bytes: Seq<u8>) -> Seq<char> {
    bytes.map_values(|b: u8| b as char)
}

/// Whether every byte is ASCII.
pub open spec fn all_ascii(bytes: Seq<u8>) -> bool {
    forall|i: int| 0 <= i < bytes.len() ==> #[trigger] bytes[i] < 128
}

/// The row that the payload of a cursor names.
pub open spec fn payload_id(bytes: Seq<u8>) -> Option<i32> {
    if all_ascii(bytes) {
        match signed_value(as_chars(bytes)) {
            Some(v) => if i32::MIN <= v <= i32::MAX {
                Some(v as i32)
            } else {
                None
            },
            None => None,
        }
    } else {
        None
    }
}

/// The row that a cursor names, or what is wrong with the cursor.
pub open spec fn cursor_id(cursor: Seq<char>) -> Result<i32, ErrorView> {
    match base64url_bytes(cursor) {
        None => Err(ErrorView::InvalidCursor("invalid sandbox list cursor encoding"@)),
        Some(bytes) => match payload_id(bytes) {
            Some(id) => Ok(id),
            None => Err(ErrorView::InvalidCursor("invalid sandbox list cursor payload"@)),
        },
    }
}

proof fn lemma_decimal_ascii(n: nat)
    ensures
        is_ascii_chars(decimal(n)),
    decreases n,
{
    if n >= 10 {
        lemma_decimal_ascii(n / 10);
        let all = decimal(n);
        assert forall|i: int| 0 <= i < all.len() implies '\0' <= #[trigger] all[i] <= '\u{7f}' by {
            if i < all.len() - 1 {
                assert(all[i] == decimal(n / 10)[i]);
            }
        }
    }
}

proof fn lemma_signed_decimal_ascii(i: int)
    ensures
        is_ascii_chars(signed_decimal(i)),
{
    if i < 0 {
        lemma_decimal_ascii((-i) as nat);
        let all = signed_decimal(i);
        assert forall|k: int| 0 <= k < all.len() implies '\0' <= #[trigger] all[k] <= '\u{7f}' by {
            if k > 0 {
                assert(all[k] == decimal((-i) as nat)[k - 1]);
            }
        }
    } else {
        lemma_decimal_ascii(i as nat);
    }
}

proof fn lemma_payload_of_id(id: i32)
    ensures
        payload_id(encode_utf8(signed_decimal(id as int))) == Some(id),
{
    let text = signed_decimal(id as int);
    let bytes = encode_utf8(text);
    lemma_signed_decimal_ascii(id as int);
    is_ascii_chars_encode_utf8(text);
    lemma_signed_decimal_value(id as int);
    assert forall|i: int| 0 <= i < bytes.len() implies #[trigger] bytes[i] < 128 && bytes[i] as char
        == text[i] by {
        let c = text[i];
        assert('\0' <= c <= '\u{7f}');
        assert(bytes[i] == c as u8);
    }
    assert(as_chars(bytes) =~= text);
}

/// The cursor after a row. Decoding it gives the row back.
pub fn encode_list_cursor(id: i32) -> (r: String)
    ensures
        r@ == base64url_text(encode_utf8(signed_decimal(id as int))),
        cursor_id(r@) == Ok::<i32, ErrorView>(id),
{
    let text = signed_text(id as i64);
    proof {
        lemma_payload_of_id(id);
    }
    base64url_encode(text.as_str().as_bytes())
}

/// The row that the payload of a cursor names.
pub fn cursor_payload_id(bytes: &[u8]) -> (r: Option<i32>)
    ensures
        r == payload_id(bytes@),
{
    let mut chars: Vec<char> = Vec::new();
    let mut i: usize = 0;
    while i < bytes.len()
        invariant
            i <= bytes@.len(),
            chars@ == as_chars(bytes@).take(i as int),
            forall|k: int| 0 <= k < i ==> #[trigger] bytes@[k] < 128,
        decreases bytes@.len() - i,
    {
        if bytes[i] >= 128 {
            assert(bytes@[i as int] >= 128);
            return None;
        }
        chars.push(bytes[i] as char);
        i = i + 1;
        assert(chars@ =~= as_chars(bytes@).take(i as int));
    }
    assert(chars@ =~= as_chars(bytes@));
    let text = string_of(chars.as_slice());
    parse_i32(text.as_str())
}

/// The row that a cursor names.
pub fn decode_list_cursor(cursor: &str) -> (r: MicrosandboxResult<i32>)
    ensures
        match r {
            Ok(id) => cursor_id(cursor@) == Ok::<i32, ErrorView>(id),
            Err(e) => cursor_id(cursor@) == Err::<i32, ErrorView>(e@),
        },
{
    match base64url_decode(cursor) {
        None => Err(
            MicrosandboxError::InvalidCursor("invalid sandbox list cursor encoding".to_owned()),
        ),
        Some(bytes) => match cursor_payload_id(bytes.as_slice()) {
            Some(id) => Ok(id),
            None => Err(
                MicrosandboxError::InvalidCursor("invalid sandbox list cursor payload".to_owned()),
            ),
        },
    }
}

/// Whether rows come in descending order, none twice.
pub open spec fn descending(ids: Seq<i32>) -> bool {
    forall|i: int, j: int| 0 <= i < j < ids.len() ==> #[trigger] ids[i] > #[trigger] ids[j]
}

/// The rows after a cursor.
pub open spec fn below(ids: Seq<i32>, cursor: Option<i32>) -> Seq<i32> {
    match cursor {
        Some(c) => ids.filter(|id: i32| id < c),
        None => ids,
    }
}

/// The first rows, as many as a page holds.
pub open spec fn page(ids: Seq<i32>, limit: nat) -> Seq<i32> {
    if ids.len() <= limit {
        ids
    } else {
        ids.take(limit as int)
    }
}

/// The row after which the next page begins, where there is one.
pub open spec fn page_end(ids: Seq<i32>, limit: nat) -> Option<i32> {
    if ids.len() > limit && limit > 0 {
        Some(ids[limit - 1])
    } else {
        None
    }
}

proof fn lemma_filter_descending(ids: Seq<i32>, at: int, n: int)
    requires
        descending(ids),
        0 <= at < n <= ids.len(),
    ensures
        ids.take(n).filter(|id: i32| id < ids[at]) == ids.subrange(at + 1, n),
    decreases n,
{
    reveal(Seq::filter);
    let f = |id: i32| id < ids[at];
    assert(ids.take(n).drop_last() =~= ids.take(n - 1));
    assert(ids.take(n).last() == ids[n - 1]);
    if n - 1 == at {
        assert forall|i: int| 0 <= i < at + 1 implies !f(#[trigger] ids[i]) by {
            if i < at {
                assert(ids[i] > ids[at]);
            }
        }
        lemma_filter_none(ids, f, at + 1);
        assert(ids.subrange(at + 1, n) =~= Seq::empty());
    } else {
        lemma_filter_descending(ids, at, n - 1);
        assert(ids[at] > ids[n - 1]);
        assert(ids.subrange(at + 1, n - 1).push(ids[n - 1]) =~= ids.subrange(at + 1, n));
    }
}

proof fn lemma_filter_none(ids: Seq<i32>, f: spec_fn(i32) -> bool, n: int)
    requires
        0 <= n <= ids.len(),
        forall|i: int| 0 <= i < n ==> !f(#[trigger] ids[i]),
    ensures
        ids.take(n).filter(f) == Seq::<i32>::empty(),
    decreases n,
{
    reveal(Seq::filter);
    if n > 0 {
        assert(ids.take(n).drop_last() =~= ids.take(n - 1));
        assert(ids.take(n).last() == ids[n - 1]);
        lemma_filter_none(ids, f, n - 1);
    }
}

/// Pages follow on one another: the rows after a page's cursor are exactly the rows that the
/// page left over, so a walk through the pages sees every row once.
pub proof fn pages_follow_on(ids: Seq<i32>, limit: nat)
    requires
        descending(ids),
        page_end(ids, limit) is Some,
    ensures
        page(ids, limit) + below(ids, page_end(ids, limit)) == ids,
{
    let at = limit - 1;
    lemma_filter_descending(ids, at, ids.len() as int);
    assert(ids.take(ids.len() as int) =~= ids);
    assert(ids.take(limit as int) + ids.subrange(limit as int, ids.len() as int) =~= ids);
}

/// Cuts a page from the rows that were read, which are at most one more than the page holds, and
/// gives the cursor of the next page where there is one.
pub fn list_page(ids: Vec<i32>, limit: u32) -> (r: (Vec<i32>, Option<String>))
    ensures
        r.0@ == page(ids@, limit as nat),
        match r.1 {
            Some(cursor) => page_end(ids@, limit as nat) is Some && cursor_id(cursor@) == Ok::<
                i32,
                ErrorView,
            >(page_end(ids@, limit as nat)->0),
            None => page_end(ids@, limit as nat) is None,
        },
{
    if ids.len() as u64 <= limit as u64 {
        return (ids, None);
    }
    let keep: usize = limit as usize;
    let mut out: Vec<i32> = Vec::new();
    let mut i: usize = 0;
    while i < keep
        invariant
            i <= keep <= ids@.len(),
            out@ == ids@.take(i as int),
        decreases keep - i,
    {
        out.push(ids[i]);
        i = i + 1;
        assert(out@ =~= ids@.take(i as int));
    }
    if keep == 0 {
        return (out, None);
    }
    let cursor = encode_list_cursor(ids[keep - 1]);
    (out, Some(cursor))
}

// ------------------------------------------------------------------------------------------------
// Labels
// ------------------------------------------------------------------------------------------------

/// One label of one sandbox.
pub struct LabelRow {
    pub sandbox_id: i32,
    pub key: String,
    pub value: String,
}

/// Whether row `i` gives the sandbox the label.
pub open spec fn labelled_at(
    rows: Seq<LabelRow>,
    i: int,
    id: i32,
    key: Seq<char>,
    value: Seq<char>,
) -> bool {
    0 <= i < rows.len() && rows[i].sandbox_id == id && rows[i].key@ == key && rows[i].value@
        == value
}

/// Whether a sandbox has a label.
pub open spec fn has_label(rows: Seq<LabelRow>, id: i32, key: Seq<char>, value: Seq<char>) -> bool {
    exists|i: int| labelled_at(rows, i, id, key, value)
}

/// Whether a sandbox has every one of the labels.
pub open spec fn has_all_labels(
    rows: Seq<LabelRow>,
    id: i32,
    labels: Seq<(String, String)>,
) -> bool {
    forall|k: int|
        0 <= k < labels.len() ==> has_label(
            rows,
            id,
            (#[trigger] labels[k]).0@,
            labels[k].1@,
        )
}

fn row_labels(rows: &Vec<LabelRow>, id: i32, key: &str, value: &str) -> (r: bool)
    ensures
        r == has_label(rows@, id, key@, value@),
{
    let mut i: usize = 0;
    while i < rows.len()
        invariant
            i <= rows@.len(),
            forall|k: int| k < i ==> !labelled_at(rows@, k, id, key@, value@),
        decreases rows@.len() - i,
    {
        if rows[i].sandbox_id == id && same(rows[i].key.as_str(), key) && same(
            rows[i].value.as_str(),
            value,
        ) {
            assert(labelled_at(rows@, i as int, id, key@, value@));
            return true;
        }
        i = i + 1;
    }
    false
}

/// The sandboxes that have every one of the labels, each once; none where no label is asked for.
pub fn filter_sandbox_ids(rows: &Vec<LabelRow>, labels: &Vec<(String, String)>) -> (r: Vec<i32>)
    ensures
        r@.no_duplicates(),
        forall|id: i32|
            r@.contains(id) <==> labels@.len() > 0 && has_all_labels(rows@, id, labels@),
{
    let mut out: Vec<i32> = Vec::new();
    if labels.len() == 0 {
        return out;
    }
    let mut i: usize = 0;
    while i < rows.len()
        invariant
            i <= rows@.len(),
            labels@.len() > 0,
            out@.no_duplicates(),
            forall|id: i32| #[trigger] out@.contains(id) ==> has_all_labels(rows@, id, labels@),
            forall|k: int|
                0 <= k < i && has_all_labels(rows@, rows@[k].sandbox_id, labels@)
                    ==> out@.contains((#[trigger] rows@[k]).sandbox_id),
        decreases rows@.len() - i,
    {
        let id = rows[i].sandbox_id;
        let mut known = false;
        let mut j: usize = 0;
        while j < out.len()
            invariant
                j <= out@.len(),
                known ==> out@.contains(id),
                !known ==> forall|k: int| 0 <= k < j ==> out@[k] != id,
            decreases out@.len() - j,
        {
            if out[j] == id {
                assert(out@[j as int] == id);
                known = true;
            }
            j = j + 1;
        }
        if !known {
            let mut all = true;
            let mut k: usize = 0;
            while k < labels.len()
                invariant
                    k <= labels@.len(),
                    all ==> forall|m: int|
                        0 <= m < k ==> has_label(
                            rows@,
                            id,
                            (#[trigger] labels@[m]).0@,
                            labels@[m].1@,
                        ),
                    !all ==> !has_all_labels(rows@, id, labels@),
                decreases labels@.len() - k,
            {
                if !row_labels(rows, id, labels[k].0.as_str(), labels[k].1.as_str()) {
                    assert(!has_label(rows@, id, labels@[k as int].0@, labels@[k as int].1@));
                    all = false;
                }
                k = k + 1;
            }
            if all {
                let ghost before = out@;
                out.push(id);
                assert(out@[out@.len() - 1] == id);
                assert forall|x: i32| before.contains(x) implies out@.contains(x) by {
                    let m = choose|m: int| 0 <= m < before.len() && before[m] == x;
                    assert(out@[m] == x);
                }
                assert forall|x: i32| out@.contains(x) implies has_all_labels(rows@, x, labels@) by {
                    let m = choose|m: int| 0 <= m < out@.len() && out@[m] == x;
                    if m < before.len() {
                        assert(before[m] == x);
                        assert(before.contains(x));
                    }
                }
            }
        }
        i = i + 1;
    }
    assert forall|id: i32| has_all_labels(rows@, id, labels@) implies out@.contains(id) by {
        assert(has_label(rows@, id, labels@[0].0@, labels@[0].1@));
        let k = choose|k: int| labelled_at(rows@, k, id, labels@[0].0@, labels@[0].1@);
        assert(rows@[k].sandbox_id == id);
    }
    out
}

// ------------------------------------------------------------------------------------------------
// Processes
// ------------------------------------------------------------------------------------------------

/// A run of a sandbox and the live process behind it, if there is any.
#[derive(Clone, Copy, Debug, PartialEq, Eq, Structural)]
pub struct RunPid {
    pub sandbox_id: i32,
    pub pid: Option<i32>,
}

/// The process of each sandbox: of several runs, the first with a live process counts.
pub open spec fn pids_of(runs: Seq<RunPid>) -> Map<i32, i32>
    decreases runs.len(),
{
    if runs.len() == 0 {
        Map::empty()
    } else {
        let before = pids_of(runs.drop_last());
        let last = runs.last();
        if before.dom().contains(last.sandbox_id) || last.pid is None {
            before
        } else {
            before.insert(last.sandbox_id, last.pid->0)
        }
    }
}

/// The process of each sandbox, from runs in the order of their start, latest first.
pub fn load_active_pids(runs: &Vec<RunPid>) -> (r: HashMap<i32, i32>)
    ensures
        r@ == pids_of(runs@),
{
    let mut pids: HashMap<i32, i32> = HashMap::new();
    let mut i: usize = 0;
    while i < runs.len()
        invariant
            i <= runs@.len(),
            pids@ == pids_of(runs@.take(i as int)),
        decreases runs@.len() - i,
    {
        assert(runs@.take(i + 1).drop_last() =~= runs@.take(i as int));
        let run = runs[i];
        if !pids.contains_key(&run.sandbox_id) {
            if let Some(pid) = run.pid {
                pids.insert(run.sandbox_id, pid);
            }
        }
        i = i + 1;
    }
    assert(runs@.take(i as int) =~= runs@);
    pids
}

// ------------------------------------------------------------------------------------------------
// What the records mean
// ------------------------------------------------------------------------------------------------

/// Each state says one thing: starting, running and draining sandboxes claim a runtime, created,
/// stopped and crashed ones can be started, and only a paused one does neither and still keeps what
/// belongs to its machine.
pub proof fn states_are_told_apart(status: SandboxStatus)
    ensures
        is_active(status) == match status {
            SandboxStatus::Starting => true,
            SandboxStatus::Running => true,
            SandboxStatus::Draining => true,
            _ => false,
        },
        is_startable(status) == match status {
            SandboxStatus::Created => true,
            SandboxStatus::Stopped => true,
            SandboxStatus::Crashed => true,
            _ => false,
        },
        !(is_active(status) && is_startable(status)),
        keeps_runtime_state(status) <==> status == SandboxStatus::Starting || status
            == SandboxStatus::Running || status == SandboxStatus::Draining || status
            == SandboxStatus::Paused,
{
}

/// A record that comes to rest has the state it comes to, and nothing of its machine.
pub proof fn cleared_records_have_their_state(row: RuntimeRow, status: SandboxStatus)
    ensures
        cleared(row, status) == (RuntimeRow {
            id: row.id,
            status,
            network_slot: None,
            has_active_config: false,
        }),
{
}

/// A machine that was asked to stop and is gone has stopped as asked; any other that is gone has
/// crashed.
pub proof fn the_gone_have_stopped_or_crashed(status: SandboxStatus)
    ensures
        status == SandboxStatus::Draining ==> terminal_state(status) == (
            SandboxStatus::Stopped,
            TerminationReason::ShutdownRequested,
        ),
        status != SandboxStatus::Draining ==> terminal_state(status) == (
            SandboxStatus::Crashed,
            TerminationReason::InternalError,
        ),
{
}

/// A record moves exactly where its state is expected, to the state that is asked for, and stays
/// otherwise.
pub proof fn records_move_from_expected_states(
    status: SandboxStatus,
    expected: Seq<SandboxStatus>,
    next: SandboxStatus,
)
    ensures
        expected.contains(status) ==> compared_and_set(status, expected, next) == (next, true),
        !expected.contains(status) ==> compared_and_set(status, expected, next) == (status, false),
{
}

/// Whoever names no row takes the one that is found; whoever names one takes no other, and is told
/// both.
pub proof fn only_the_expected_row_is_taken(
    name: Seq<char>,
    expected: Option<i32>,
    actual: i32,
)
    ensures
        identity_failure(name, expected, actual) is None <==> expected is None || expected == Some(
            actual,
        ),
        identity_failure(name, expected, actual) matches Some(e) ==> e == (
        ErrorView::SandboxReplaced {
            name,
            expected: "local:"@ + signed_decimal(expected->0 as int),
            actual: "local:"@ + signed_decimal(actual as int),
        }),
{
}

/// A sandbox at rest starts where its directory is there and, if it boots through the stitched disk
/// of its image, that disk is not known to be missing. Sandboxes with a flat disk of their own, a
/// directory or a disk image need no such disk.
pub proof fn sandboxes_start_from_what_is_there(
    config: SandboxConfig,
    sandbox_dir: Seq<char>,
    dir_exists: bool,
    vmdk: VmdkFact,
)
    ensures
        ({
            let stitched = match config.spec.image {
                RootfsSource::Oci(oci) => config.manifest_digest is Some && !(oci.root_disk is Some
                    && oci.root_disk->0 is Flat),
                _ => false,
            };
            let missing = vmdk is At && !vmdk->exists;
            start_state_failure(config, sandbox_dir, dir_exists, vmdk) is None <==> dir_exists && !(
            stitched && missing)
        }),
{
}

/// A cursor whose payload is a number in decimal names the row with that number.
pub proof fn cursors_name_their_row(cursor: Seq<char>, bytes: Seq<u8>, id: i32)
    requires
        base64url_bytes(cursor) == Some(bytes),
        bytes.len() == signed_decimal(id as int).len(),
        forall|i: int|
            0 <= i < bytes.len() ==> #[trigger] bytes[i] < 128 && bytes[i] as char
                == signed_decimal(id as int)[i],
    ensures
        cursor_id(cursor) == Ok::<i32, ErrorView>(id),
{
    assert(as_chars(bytes) =~= signed_decimal(id as int));
    lemma_signed_decimal_value(id as int);
}

/// What is no cursor is refused: text that does not decode, and a payload that is no row.
pub proof fn other_cursors_are_refused(cursor: Seq<char>, bytes: Seq<u8>, i: int)
    ensures
        base64url_bytes(cursor) is None ==> cursor_id(cursor) is Err,
        base64url_bytes(cursor) is Some && payload_id(base64url_bytes(cursor)->0) is None
            ==> cursor_id(cursor) is Err,
        cursor_id(cursor) is Err ==> cursor_id(cursor)->Err_0 is InvalidCursor,
        0 <= i < bytes.len() && bytes[i] >= 128 ==> payload_id(bytes) is None,
{
}

/// A page holds the first of what is left, no more than are asked for, and all where they fit; its
/// end is its last row, and is given exactly where more follow.
pub proof fn pages_hold_what_is_asked(ids: Seq<i32>, limit: nat)
    ensures
        page(ids, limit).len() <= limit,
        page(ids, limit).is_prefix_of(ids),
        ids.len() <= limit ==> page(ids, limit) == ids && page_end(ids, limit) is None,
        ids.len() > limit ==> page(ids, limit).len() == limit,
        ids.len() > limit && limit > 0 ==> page_end(ids, limit) == Some(page(ids, limit).last()),
{
}

/// What follows a cursor are the rows below it, in their order.
pub proof fn cursors_are_passed(ids: Seq<i32>, cursor: i32)
    requires
        ids.len() > 0,
    ensures
        below(ids, None) == ids,
        below(ids, Some(cursor)) == if ids.last() < cursor {
            below(ids.drop_last(), Some(cursor)).push(ids.last())
        } else {
            below(ids.drop_last(), Some(cursor))
        },
{
    reveal(Seq::filter);
}

/// A sandbox has a label where some row gives it that label, key and value both; and it has all of
/// several where it has each.
pub proof fn labels_come_from_rows(
    rows: Seq<LabelRow>,
    id: i32,
    labels: Seq<(String, String)>,
    i: int,
)
    requires
        0 <= i < rows.len(),
    ensures
        has_label(rows, rows[i].sandbox_id, rows[i].key@, rows[i].value@),
        forall|key: Seq<char>, value: Seq<char>| #[trigger]
            has_label(rows, id, key, value) ==> exists|k: int|
                0 <= k < rows.len() && (#[trigger] rows[k]).sandbox_id == id && rows[k].key@ == key
                    && rows[k].value@ == value,
        has_all_labels(rows, id, labels) <==> forall|k: int|
            0 <= k < labels.len() ==> #[trigger] has_label(
                rows,
                id,
                labels[k].0@,
                labels[k].1@,
            ),
{
    assert(labelled_at(rows, i, rows[i].sandbox_id, rows[i].key@, rows[i].value@));
    assert forall|key: Seq<char>, value: Seq<char>| #[trigger]
        has_label(rows, id, key, value) implies exists|k: int|
        0 <= k < rows.len() && (#[trigger] rows[k]).sandbox_id == id && rows[k].key@ == key
            && rows[k].value@ == value by {
        let k = choose|k: int| labelled_at(rows, k, id, key, value);
        assert(rows[k].sandbox_id == id);
    }
    if has_all_labels(rows, id, labels) {
        assert forall|k: int| 0 <= k < labels.len() implies #[trigger] has_label(
            rows,
            id,
            labels[k].0@,
            labels[k].1@,
        ) by {
            assert(labels[k] == labels[k]);
        }
    }
}

/// The process of a sandbox is that of its first run in the list that has a live one, and a sandbox
/// without such a run has none.
pub proof fn the_first_live_process_counts(runs: Seq<RunPid>, id: i32)
    ensures
        pids_of(runs).dom().contains(id) <==> exists|k: int|
            0 <= k < runs.len() && (#[trigger] runs[k]).sandbox_id == id && runs[k].pid is Some,
        pids_of(runs).dom().contains(id) ==> exists|k: int|
            0 <= k < runs.len() && (#[trigger] runs[k]).sandbox_id == id && runs[k].pid == Some(
                pids_of(runs)[id],
            ) && (forall|m: int|
                0 <= m < k ==> !((#[trigger] runs[m]).sandbox_id == id && runs[m].pid is Some)),
    decreases runs.len(),
{
    if runs.len() > 0 {
        let before = runs.drop_last();
        let last = runs.len() - 1;
        the_first_live_process_counts(before, id);
        assert(runs[last] == runs.last());
        if pids_of(before).dom().contains(id) {
            let k = choose|k: int|
                0 <= k < before.len() && (#[trigger] before[k]).sandbox_id == id && before[k].pid
                    == Some(pids_of(before)[id]) && (forall|m: int|
                    0 <= m < k ==> !((#[trigger] before[m]).sandbox_id == id && before[m].pid
                        is Some));
            assert(runs[k] == before[k]);
            assert forall|m: int| 0 <= m < k implies !((#[trigger] runs[m]).sandbox_id == id
                && runs[m].pid is Some) by {
                assert(before[m] == runs[m]);
            }
        } else {
            assert forall|m: int| 0 <= m < last implies !((#[trigger] runs[m]).sandbox_id == id
                && runs[m].pid is Some) by {
                assert(before[m] == runs[m]);
            }
        }
    }
}

/// A sandbox that was replaced is reported with the row that was expected and the one that is
/// there, in this order.
pub proof fn replacements_name_both_rows(name: Seq<char>, expected: i32, actual: i32)
    ensures
        expected == actual ==> identity_failure(name, Some(expected), actual) is None,
        identity_failure(name, None, actual) is None,
        expected != actual ==> identity_failure(name, Some(expected), actual) == Some(
            ErrorView::SandboxReplaced {
                name,
                expected: "local:"@ + signed_decimal(expected as int),
                actual: "local:"@ + signed_decimal(actual as int),
            },
        ),
{
}

/// What is missing at a start is named: the directory before the disk descriptor, and each with the
/// sandbox and its place.
pub proof fn missing_state_is_named(
    config: SandboxConfig,
    sandbox_dir: Seq<char>,
    path: String,
    exists: bool,
)
    ensures
        start_state_failure(config, sandbox_dir, false, VmdkFact::At { path, exists }) == Some(
            ErrorView::Custom(
                "sandbox state missing for '"@ + config.spec.name@ + "': "@ + sandbox_dir,
            ),
        ),
        start_state_failure(config, sandbox_dir, true, VmdkFact::At { path, exists }) is Some ==>
            !exists && start_state_failure(
            config,
            sandbox_dir,
            true,
            VmdkFact::At { path, exists },
        ) == Some(
            ErrorView::Custom(
                "sandbox '"@ + config.spec.name@ + "' cannot start: VMDK missing: "@ + path@,
            ),
        ),
{
}

/// A cursor that is refused is refused for its encoding before its payload.
pub proof fn refused_cursors_say_why(cursor: Seq<char>)
    ensures
        base64url_bytes(cursor) is None ==> cursor_id(cursor) == Err::<i32, ErrorView>(
            ErrorView::InvalidCursor("invalid sandbox list cursor encoding"@),
        ),
        base64url_bytes(cursor) is Some && payload_id(base64url_bytes(cursor)->0) is None
            ==> cursor_id(cursor) == Err::<i32, ErrorView>(
            ErrorView::InvalidCursor("invalid sandbox list cursor payload"@),
        ),
{
}

} // verus!
