//! Sandboxes as callers see them: handles, and lists of them.

use std::collections::HashMap;

use vstd::prelude::*;

use crate::agent_socket::LocalBackend;
use crate::catalog::{
    LabelRow, below, cursor_id, decode_list_cursor, descending, filter_sandbox_ids, has_all_labels,
    has_label,    identity_failure, ensure_local_identity, list_page, page, page_end, pages_follow_on,
};
use crate::cloud::{CloudSandbox, cloud_status_to_sandbox_status, status_of};
use crate::error::{ErrorView, MicrosandboxError, MicrosandboxResult, failure};
use crate::runtime_identity::RecordedRuntime;
use crate::text::{signed_decimal, signed_text};
use crate::types::SandboxStatus;

verus! {

broadcast use vstd::std_specs::hash::group_hash_axioms;

// ------------------------------------------------------------------------------------------------
// Handles
// ------------------------------------------------------------------------------------------------

/// What is behind a running sandbox.
pub enum SandboxInner {
    /// A machine on this host.
    Local(SandboxLocalState),
    /// A machine in the cloud.
    Cloud(SandboxCloudState),
}

/// A machine on this host.
pub struct SandboxLocalState {
    /// Its row in the catalog.
    pub db_id: i32,
    /// The process that runs it, where this process owns it.
    pub handle: Option<u32>,
    /// The socket of its agent.
    pub client: String,
}

/// A machine in the cloud.
pub struct SandboxCloudState {
    pub id: String,
    pub org_id: String,
    /// Microseconds since the epoch.
    pub created_at: i64,
}

/// What is behind a handle.
pub enum SandboxHandleInner {
    /// A record on this host.
    Local(SandboxHandleLocalState),
    /// A record in the cloud.
    Cloud(SandboxHandleCloudState),
}

/// A record on this host, with its live process. Times are microseconds since the epoch.
pub struct SandboxHandleLocalState {
    pub db_id: i32,
    pub status: SandboxStatus,
    pub config_json: String,
    pub active_config_json: Option<String>,
    pub created_at: Option<i64>,
    pub updated_at: Option<i64>,
    pub pid: Option<i32>,
}

/// A record in the cloud. Times are microseconds since the epoch.
pub struct SandboxHandleCloudState {
    pub id: String,
    pub org_id: String,
    pub status: SandboxStatus,
    pub config_json: String,
    pub created_at: Option<i64>,
    pub started_at: Option<i64>,
    pub stopped_at: Option<i64>,
    pub last_error: Option<String>,
}

/// A sandbox, running or not.
pub struct SandboxHandle {
    pub name: String,
    pub inner: SandboxHandleInner,
}

/// One page of sandboxes.
pub struct SandboxList {
    pub sandboxes: Vec<SandboxHandle>,
    /// Where the next page begins, where there is one.
    pub next_cursor: Option<String>,
}

/// A record of the catalog. Times are microseconds since the epoch.
pub struct SandboxModel {
    pub id: i32,
    pub name: String,
    pub status: SandboxStatus,
    pub config: String,
    pub active_config: Option<String>,
    pub created_at: Option<i64>,
    pub updated_at: Option<i64>,
}

impl SandboxHandle {
    /// The handle of a record on this host. `shown` is the status as callers see it.
    pub fn from_local_model(model: SandboxModel, shown: SandboxStatus, pid: Option<i32>) -> (r: Self)
        ensures
            r.name == model.name,
            r.inner == SandboxHandleInner::Local(
                (SandboxHandleLocalState {
                    db_id: model.id,
                    status: shown,
                    config_json: model.config,
                    active_config_json: model.active_config,
                    created_at: model.created_at,
                    updated_at: model.updated_at,
                    pid,
                }),
            ),
    {
        SandboxHandle {
            name: model.name,
            inner: SandboxHandleInner::Local(
                SandboxHandleLocalState {
                    db_id: model.id,
                    status: shown,
                    config_json: model.config,
                    active_config_json: model.active_config,
                    created_at: model.created_at,
                    updated_at: model.updated_at,
                    pid,
                },
            ),
        }
    }

    /// The handle of a sandbox in the cloud. `config_json` is what it was asked for, as the cloud
    /// wrote it.
    pub fn from_cloud(cloud: CloudSandbox, config_json: String) -> (r: Self)
        ensures
            r.name == cloud.name,
            r.inner == SandboxHandleInner::Cloud(
                (SandboxHandleCloudState {
                    id: cloud.id,
                    org_id: cloud.org_id,
                    status: status_of(cloud.status),
                    config_json,
                    created_at: Some(cloud.created_at),
                    started_at: cloud.started_at,
                    stopped_at: cloud.stopped_at,
                    last_error: cloud.last_error,
                }),
            ),
    {
        let status = cloud_status_to_sandbox_status(cloud.status);
        SandboxHandle {
            name: cloud.name,
            inner: SandboxHandleInner::Cloud(
                SandboxHandleCloudState {
                    id: cloud.id,
                    org_id: cloud.org_id,
                    status,
                    config_json,
                    created_at: Some(cloud.created_at),
                    started_at: cloud.started_at,
                    stopped_at: cloud.stopped_at,
                    last_error: cloud.last_error,
                },
            ),
        }
    }
}

/// The record that a name stands for, where it is the one that the caller means.
pub fn sandbox_handle_state(name: &str, found: Option<i32>, expected_id: Option<i32>) -> (r:
    MicrosandboxResult<i32>)
    ensures
        match found {
            None => failure(r) == Some(ErrorView::SandboxNotFound(name@)),
            Some(id) => match identity_failure(name@, expected_id, id) {
                Some(e) => failure(r) == Some(e),
                None => r == Ok::<i32, MicrosandboxError>(id),
            },
        },
{
    match found {
        None => Err(MicrosandboxError::SandboxNotFound(name.to_owned())),
        Some(id) => match ensure_local_identity(name, expected_id, id) {
            Ok(_) => Ok(id),
            Err(e) => Err(e),
        },
    }
}

impl LocalBackend {
    /// The process behind a run, where it is the recorded runtime and lives.
    pub fn pid_from_run(runtime: RecordedRuntime) -> (r: Option<i32>)
        ensures
            r == match runtime {
                RecordedRuntime::Live(process) => Some(process.pid),
                _ => None,
            },
    {
        match runtime.live() {
            Some(process) => Some(process.pid()),
            None => None,
        }
    }

    /// Whether a process has exited, given whether any process has its PID. Its wait status is
    /// left for the process that owns it.
    pub fn pid_has_exited(pid_is_alive: bool) -> (r: bool)
        ensures
            r == !pid_is_alive,
    {
        !pid_is_alive
    }

    /// Milliseconds that a sandbox gets to stop by itself.
    pub fn default_stop_timeout(&self) -> (r: u64)
        ensures
            r == self.stop_timeout_ms,
    {
        self.stop_timeout_ms
    }

    /// Whether a sandbox that does not stop in time is killed.
    pub fn should_force_kill_after_stop_timeout(&self) -> (r: bool)
        ensures
            r,
    {
        true
    }
}

/// A PID as Windows has them.
pub fn terminable_pid(pid: i32) -> (r: MicrosandboxResult<u32>)
    ensures
        match r {
            Ok(p) => pid >= 0 && p == pid,
            Err(e) => pid < 0 && e@ == ErrorView::Runtime(
                "invalid Windows pid: "@ + signed_decimal(pid as int),
            ),
        },
{
    if pid < 0 {
        let mut message = "invalid Windows pid: ".to_owned();
        message.append(signed_text(pid as i64).as_str());
        return Err(MicrosandboxError::Runtime(message));
    }
    Ok(pid as u32)
}

// ------------------------------------------------------------------------------------------------
// Runs
// ------------------------------------------------------------------------------------------------

/// A run as the catalog has it.
#[derive(Clone, Copy, Debug, PartialEq, Eq, Structural)]
pub struct RunModel {
    pub id: i32,
    pub sandbox_id: i32,
    pub pid: Option<i32>,
    /// Microseconds since the epoch.
    pub started_at: Option<i64>,
    /// Whether the run has not ended.
    pub running: bool,
}

/// Whether a run started later than another. A run without a time comes before every other.
pub open spec fn started_later(a: RunModel, b: RunModel) -> bool {
    match (a.started_at, b.started_at) {
        (Some(x), Some(y)) => x > y,
        (Some(_), None) => true,
        (None, _) => false,
    }
}

/// The run of a sandbox that has not ended, the one that started last.
pub fn load_active_run(runs: &Vec<RunModel>, sandbox_id: i32) -> (r: Option<RunModel>)
    ensures
        match r {
            Some(run) => runs@.contains(run) && run.sandbox_id == sandbox_id && run.running && (
            forall|k: int|
                0 <= k < runs@.len() && (#[trigger] runs@[k]).sandbox_id == sandbox_id
                    && runs@[k].running ==> !started_later(runs@[k], run)),
            None => forall|k: int|
                0 <= k < runs@.len() ==> !((#[trigger] runs@[k]).sandbox_id == sandbox_id
                    && runs@[k].running),
        },
{
    let mut best: Option<RunModel> = None;
    let mut i: usize = 0;
    while i < runs.len()
        invariant
            i <= runs@.len(),
            match best {
                Some(run) => runs@.contains(run) && run.sandbox_id == sandbox_id && run.running && (
                forall|k: int|
                    0 <= k < i && (#[trigger] runs@[k]).sandbox_id == sandbox_id
                        && runs@[k].running ==> !started_later(runs@[k], run)),
                None => forall|k: int|
                    0 <= k < i ==> !((#[trigger] runs@[k]).sandbox_id == sandbox_id
                        && runs@[k].running),
            },
        decreases runs@.len() - i,
    {
        let run = runs[i];
        assert(runs@[i as int] == run);
        if run.sandbox_id == sandbox_id && run.running {
            let later = match best {
                None => true,
                Some(old) => match (run.started_at, old.started_at) {
                    (Some(x), Some(y)) => x > y,
                    (Some(_), None) => true,
                    (None, _) => false,
                },
            };
            if later {
                best = Some(run);
            }
        }
        i = i + 1;
    }
    best
}

/// The run of a sandbox that was recorded last, whether it has ended or not.
pub fn load_latest_run(runs: &Vec<RunModel>, sandbox_id: i32) -> (r: Option<RunModel>)
    ensures
        match r {
            Some(run) => runs@.contains(run) && run.sandbox_id == sandbox_id && (forall|k: int|
                0 <= k < runs@.len() && (#[trigger] runs@[k]).sandbox_id == sandbox_id
                    ==> runs@[k].id <= run.id),
            None => forall|k: int|
                0 <= k < runs@.len() ==> (#[trigger] runs@[k]).sandbox_id != sandbox_id,
        },
{
    let mut best: Option<RunModel> = None;
    let mut i: usize = 0;
    while i < runs.len()
        invariant
            i <= runs@.len(),
            match best {
                Some(run) => runs@.contains(run) && run.sandbox_id == sandbox_id && (forall|k: int|
                    0 <= k < i && (#[trigger] runs@[k]).sandbox_id == sandbox_id ==> runs@[k].id
                        <= run.id),
                None => forall|k: int|
                    0 <= k < i ==> (#[trigger] runs@[k]).sandbox_id != sandbox_id,
            },
        decreases runs@.len() - i,
    {
        let run = runs[i];
        assert(runs@[i as int] == run);
        if run.sandbox_id == sandbox_id {
            let later = match best {
                None => true,
                Some(old) => run.id > old.id,
            };
            if later {
                best = Some(run);
            }
        }
        i = i + 1;
    }
    best
}

// ------------------------------------------------------------------------------------------------
// Lists
// ------------------------------------------------------------------------------------------------

/// Whether a list with the given labels shows a sandbox.
pub open spec fn is_shown(id: i32, labels: Seq<(String, String)>, rows: Seq<LabelRow>) -> bool {
    labels.len() == 0 || has_all_labels(rows, id, labels)
}

/// The sandboxes that a list with the given labels shows.
pub open spec fn shown(
    ids: Seq<i32>,
    labels: Seq<(String, String)>,
    rows: Seq<LabelRow>,
) -> Seq<i32> {
    ids.filter(|id: i32| is_shown(id, labels, rows))
}

fn holds_id(ids: &Vec<i32>, id: i32) -> (r: bool)
    ensures
        r == ids@.contains(id),
{
    let mut i: usize = 0;
    while i < ids.len()
        invariant
            i <= ids@.len(),
            forall|k: int| 0 <= k < i ==> ids@[k] != id,
        decreases ids@.len() - i,
    {
        if ids[i] == id {
            assert(ids@[i as int] == id);
            return true;
        }
        i = i + 1;
    }
    false
}

/// The sandboxes of the page after `cursor` of a list with the given labels, and the cursor of the
/// next page where there is one. `ids` are all sandboxes, the newest first.
pub fn list_sandbox_ids(
    ids: &Vec<i32>,
    cursor: Option<&str>,
    labels: &Vec<(String, String)>,
    rows: &Vec<LabelRow>,
    limit: u32,
) -> (r: MicrosandboxResult<(Vec<i32>, Option<String>)>)
    ensures
        match cursor {
            Some(c) => match cursor_id(c@) {
                Err(e) => failure(r) == Some(e),
                Ok(after) => is_page_of(r, shown(below(ids@, Some(after)), labels@, rows@), limit),
            },
            None => is_page_of(r, shown(ids@, labels@, rows@), limit),
        },
{
    let after: Option<i32> = match cursor {
        Some(c) => match decode_list_cursor(c) {
            Ok(id) => Some(id),
            Err(e) => {
                return Err(e);
            },
        },
        None => None,
    };
    let allowed: Vec<i32> = if labels.len() > 0 {
        filter_sandbox_ids(rows, labels)
    } else {
        Vec::new()
    };
    let ghost f = |id: i32| is_shown(id, labels@, rows@);
    let ghost all = below(ids@, after);
    let mut rest: Vec<i32> = Vec::new();
    let mut i: usize = 0;
    proof {
        reveal(Seq::filter);
        assert(below(ids@.take(0), after) =~= Seq::<i32>::empty());
    }
    while i < ids.len()
        invariant
            i <= ids@.len(),
            f == (|id: i32| is_shown(id, labels@, rows@)),
            labels@.len() > 0 ==> forall|id: i32|
                allowed@.contains(id) <==> has_all_labels(rows@, id, labels@),
            rest@ == below(ids@.take(i as int), after).filter(f),
        decreases ids@.len() - i,
    {
        let id = ids[i];
        proof {
            reveal(Seq::filter);
            assert(ids@.take(i + 1).drop_last() =~= ids@.take(i as int));
            assert(ids@.take(i + 1).last() == id);
            let before = below(ids@.take(i as int), after);
            assert(before.push(id).drop_last() =~= before);
            assert(after is None || id < after->0 ==> below(ids@.take(i + 1), after)
                =~= before.push(id));
            assert(!(after is None || id < after->0) ==> below(ids@.take(i + 1), after)
                =~= before);
        }
        let follows = match after {
            Some(c) => id < c,
            None => true,
        };
        if follows && (labels.len() == 0 || holds_id(&allowed, id)) {
            rest.push(id);
        }
        i = i + 1;
    }
    assert(ids@.take(i as int) =~= ids@);
    Ok(list_page(rest, limit))
}

/// Whether a result is the first page of a list.
pub open spec fn is_page_of(
    r: MicrosandboxResult<(Vec<i32>, Option<String>)>,
    ids: Seq<i32>,
    limit: u32,
) -> bool {
    r matches Ok(listed) && listed.0@ == page(ids, limit as nat) && match listed.1 {
        Some(cursor) => page_end(ids, limit as nat) is Some && cursor_id(cursor@) == Ok::<
            i32,
            ErrorView,
        >(page_end(ids, limit as nat)->0),
        None => page_end(ids, limit as nat) is None,
    }
}

proof fn lemma_filters_swap(ids: Seq<i32>, f: spec_fn(i32) -> bool, g: spec_fn(i32) -> bool)
    ensures
        ids.filter(f).filter(g) == ids.filter(g).filter(f),
    decreases ids.len(),
{
    reveal(Seq::filter);
    if ids.len() > 0 {
        let before = ids.drop_last();
        let last = ids.last();
        lemma_filters_swap(before, f, g);
        assert(before.filter(f).push(last).drop_last() =~= before.filter(f));
        assert(before.filter(g).push(last).drop_last() =~= before.filter(g));
    }
}

proof fn lemma_filter_keeps_order(ids: Seq<i32>, f: spec_fn(i32) -> bool)
    requires
        descending(ids),
    ensures
        descending(ids.filter(f)),
        forall|k: int|
            0 <= k < ids.filter(f).len() ==> ids.contains(#[trigger] ids.filter(f)[k]),
    decreases ids.len(),
{
    reveal(Seq::filter);
    if ids.len() > 0 {
        let before = ids.drop_last();
        assert forall|i: int, j: int| 0 <= i < j < before.len() implies #[trigger] before[i]
            > #[trigger] before[j] by {
            assert(ids[i] > ids[j]);
        }
        lemma_filter_keeps_order(before, f);
        let kept = ids.filter(f);
        assert forall|k: int| 0 <= k < kept.len() implies ids.contains(#[trigger] kept[k]) by {
            if k < before.filter(f).len() {
                assert(before.contains(before.filter(f)[k]));
                let m = choose|m: int| 0 <= m < before.len() && before[m] == before.filter(f)[k];
                assert(ids[m] == kept[k]);
            } else {
                assert(ids[ids.len() - 1] == kept[k]);
            }
        }
        assert forall|i: int, j: int| 0 <= i < j < kept.len() implies #[trigger] kept[i]
            > #[trigger] kept[j] by {
            if j >= before.filter(f).len() {
                assert(before.contains(before.filter(f)[i]));
                let m = choose|m: int| 0 <= m < before.len() && before[m] == before.filter(f)[i];
                assert(ids[m] > ids[ids.len() - 1]);
            }
        }
    }
}

/// What the pages after one show is what the page left over.
pub proof fn labelled_pages_follow_on(
    ids: Seq<i32>,
    labels: Seq<(String, String)>,
    rows: Seq<LabelRow>,
    limit: nat,
)
    requires
        descending(ids),
        page_end(shown(ids, labels, rows), limit) is Some,
    ensures
        ({
            let list = shown(ids, labels, rows);
            page(list, limit) + shown(below(ids, page_end(list, limit)), labels, rows) == list
        }),
{
    let f = |id: i32| is_shown(id, labels, rows);
    let list = shown(ids, labels, rows);
    let end = page_end(list, limit)->0;
    lemma_filter_keeps_order(ids, f);
    pages_follow_on(list, limit);
    lemma_filters_swap(ids, f, |id: i32| id < end);
}

/// What a walk over a number of pages shows, each asked for with the cursor that the one before it
/// gave.
pub open spec fn walk(
    ids: Seq<i32>,
    labels: Seq<(String, String)>,
    rows: Seq<LabelRow>,
    limit: nat,
    cursor: Option<i32>,
    pages: nat,
) -> Seq<i32>
    decreases pages,
{
    if pages == 0 {
        Seq::empty()
    } else {
        let list = shown(below(ids, cursor), labels, rows);
        match page_end(list, limit) {
            Some(end) => page(list, limit) + walk(
                ids,
                labels,
                rows,
                limit,
                Some(end),
                (pages - 1) as nat,
            ),
            None => page(list, limit),
        }
    }
}

proof fn lemma_below_twice(ids: Seq<i32>, cursor: i32, end: i32)
    requires
        end <= cursor,
    ensures
        below(below(ids, Some(cursor)), Some(end)) == below(ids, Some(end)),
    decreases ids.len(),
{
    reveal(Seq::filter);
    if ids.len() > 0 {
        let before = ids.drop_last();
        let kept = below(before, Some(cursor));
        lemma_below_twice(before, cursor, end);
        assert(kept.push(ids.last()).drop_last() =~= kept);
    }
}

proof fn lemma_filter_holds(ids: Seq<i32>, f: spec_fn(i32) -> bool)
    ensures
        forall|k: int| 0 <= k < ids.filter(f).len() ==> f(#[trigger] ids.filter(f)[k]),
    decreases ids.len(),
{
    reveal(Seq::filter);
    if ids.len() > 0 {
        lemma_filter_holds(ids.drop_last(), f);
    }
}

proof fn lemma_walk(
    ids: Seq<i32>,
    labels: Seq<(String, String)>,
    rows: Seq<LabelRow>,
    limit: nat,
    cursor: Option<i32>,
    pages: nat,
)
    requires
        descending(ids),
        limit > 0,
        shown(below(ids, cursor), labels, rows).len() <= pages * limit,
    ensures
        walk(ids, labels, rows, limit, cursor, pages) == shown(below(ids, cursor), labels, rows),
    decreases pages,
{
    let rest = below(ids, cursor);
    let list = shown(rest, labels, rows);
    if pages == 0 {
        assert(pages * limit == 0) by (nonlinear_arith)
            requires
                pages == 0,
        ;
        assert(list =~= Seq::<i32>::empty());
    } else if let Some(end) = page_end(list, limit) {
        if let Some(c) = cursor {
            let f = |id: i32| id < c;
            lemma_filter_keeps_order(ids, f);
            lemma_filter_holds(ids, f);
            lemma_filter_keeps_order(rest, |id: i32| is_shown(id, labels, rows));
            assert(rest.contains(list[limit - 1]));
            lemma_below_twice(ids, c, end);
        }
        labelled_pages_follow_on(rest, labels, rows, limit);
        let left = shown(below(ids, Some(end)), labels, rows);
        assert(list == page(list, limit) + left);
        assert((pages - 1) * limit == pages * limit - limit) by (nonlinear_arith);
        lemma_walk(ids, labels, rows, limit, Some(end), (pages - 1) as nat);
    }
}

/// A walk through the pages of a list shows every sandbox of the list once and in its order,
/// whatever the size of a page, in as many pages as it takes to hold them.
pub proof fn walks_show_everything_once(
    ids: Seq<i32>,
    labels: Seq<(String, String)>,
    rows: Seq<LabelRow>,
    limit: nat,
    pages: nat,
)
    requires
        descending(ids),
        limit > 0,
        shown(ids, labels, rows).len() <= pages * limit,
    ensures
        walk(ids, labels, rows, limit, None, pages) == shown(ids, labels, rows),
{
    lemma_walk(ids, labels, rows, limit, None, pages);
}

/// Each sandbox of a page with its live process, if it has one.
pub fn pair_pids(ids: &Vec<i32>, pids: &HashMap<i32, i32>) -> (r: Vec<(i32, Option<i32>)>)
    ensures
        r@.len() == ids@.len(),
        forall|k: int|
            0 <= k < ids@.len() ==> #[trigger] r@[k] == (
                ids@[k],
                if pids@.dom().contains(ids@[k]) {
                    Some(pids@[ids@[k]])
                } else {
                    None
                },
            ),
{
    let mut out: Vec<(i32, Option<i32>)> = Vec::new();
    let mut i: usize = 0;
    while i < ids.len()
        invariant
            i <= ids@.len(),
            out@.len() == i,
            forall|k: int|
                0 <= k < i ==> #[trigger] out@[k] == (
                    ids@[k],
                    if pids@.dom().contains(ids@[k]) {
                        Some(pids@[ids@[k]])
                    } else {
                        None
                    },
                ),
        decreases ids@.len() - i,
    {
        let id = ids[i];
        let pid: Option<i32> = match pids.get(&id) {
            Some(pid) => Some(*pid),
            None => None,
        };
        out.push((id, pid));
        i = i + 1;
    }
    out
}

/// A list shows exactly the sandboxes that have every label that is asked for, and all of them
/// where none is.
pub proof fn lists_show_what_is_asked(
    ids: Seq<i32>,
    labels: Seq<(String, String)>,
    rows: Seq<LabelRow>,
)
    ensures
        forall|id: i32|
            #![trigger shown(ids, labels, rows).contains(id)]
            #![trigger ids.contains(id)]
            shown(ids, labels, rows).contains(id) <==> ids.contains(id) && (forall|k: int|
                0 <= k < labels.len() ==> #[trigger] has_label(
                    rows,
                    id,
                    labels[k].0@,
                    labels[k].1@,
                )),
        labels.len() == 0 ==> shown(ids, labels, rows) == ids,
    decreases ids.len(),
{
    reveal(Seq::filter);
    let f = |id: i32| is_shown(id, labels, rows);
    if ids.len() > 0 {
        let before = ids.drop_last();
        lists_show_what_is_asked(before, labels, rows);
        let all = shown(ids, labels, rows);
        let kept = shown(before, labels, rows);
        assert(all == if f(ids.last()) {
            kept.push(ids.last())
        } else {
            kept
        });
        assert forall|id: i32|
            #![trigger shown(ids, labels, rows).contains(id)]
            #![trigger ids.contains(id)]
            shown(ids, labels, rows).contains(id) <==> ids.contains(id) && (forall|k: int|
                0 <= k < labels.len() ==> #[trigger] has_label(
                    rows,
                    id,
                    labels[k].0@,
                    labels[k].1@,
                )) by {
            lemma_contains_push(before, ids.last(), id);
            assert(before.push(ids.last()) =~= ids);
            lemma_contains_push(kept, ids.last(), id);
            lemma_shown_means_labelled(id, labels, rows);
            assert(before.contains(id) || !before.contains(id));
        }
        if labels.len() == 0 {
            assert(all =~= ids);
        }
    } else {
        assert(shown(ids, labels, rows) =~= ids);
    }
}

proof fn lemma_contains_push(ids: Seq<i32>, last: i32, id: i32)
    ensures
        ids.push(last).contains(id) <==> ids.contains(id) || id == last,
{
    let all = ids.push(last);
    if ids.contains(id) {
        let i = choose|i: int| 0 <= i < ids.len() && ids[i] == id;
        assert(all[i] == id);
    }
    assert(all[ids.len() as int] == last);
}

proof fn lemma_shown_means_labelled(id: i32, labels: Seq<(String, String)>, rows: Seq<LabelRow>)
    ensures
        is_shown(id, labels, rows) <==> forall|k: int|
            0 <= k < labels.len() ==> #[trigger] has_label(
                rows,
                id,
                labels[k].0@,
                labels[k].1@,
            ),
{
    if is_shown(id, labels, rows) {
        assert forall|k: int| 0 <= k < labels.len() implies #[trigger] has_label(
            rows,
            id,
            labels[k].0@,
            labels[k].1@,
        ) by {
            assert(labels[k] == labels[k]);
        }
    }
}

/// Runs are ordered by when they started: no run started later than itself, of two times the
/// greater is later, and a run without a time is later than none.
pub proof fn later_runs_are_later(a: RunModel, b: RunModel, c: RunModel)
    ensures
        !started_later(a, a),
        started_later(a, b) ==> !started_later(b, a),
        started_later(a, b) && started_later(b, c) ==> started_later(a, c),
        a.started_at is Some && b.started_at is Some ==> (started_later(a, b) <==> a.started_at->0
            > b.started_at->0),
        a.started_at is Some && b.started_at is None ==> started_later(a, b),
        a.started_at is None ==> !started_later(a, b),
{
}

} // verus!
