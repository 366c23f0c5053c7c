//! Named volumes: what a sandbox asks of them, and what is stored.

use vstd::prelude::*;

use crate::error::{failure, ErrorView, MicrosandboxError, MicrosandboxResult};
use crate::host_paths::{host_join, host_joined};
use crate::mounts::{text_of, ResolvedNamedVolume};
use crate::namemap::NameMap;
use crate::outside::{
    json_pairs, pair_views, pairs_from_json, pairs_json, pairs_to_json, quoted, quoted_text,
};
use crate::text::{
    decimal, decimal_text, is_before, lemma_precedes_irreflexive, lemma_precedes_total,
    lemma_precedes_transitive, precedes, same, signed_decimal, signed_text, views,
};
use crate::types::{
    disk_format_of, stored_kind, DiskImageFormat, NamedVolumeCreate, NamedVolumeMode, VolumeKind,
    VolumeMount,
};

verus! {

/// Bytes in a mebibyte.
pub const MIB: i64 = 1_048_576;

/// A named volume as the catalog stores it.
pub struct VolumeRow {
    pub id: i32,
    pub name: String,
    pub kind: String,
    pub quota_mib: Option<i32>,
    pub capacity_bytes: Option<i64>,
    pub disk_format: Option<String>,
    pub disk_fstype: Option<String>,
    pub labels: Option<String>,
}

// ------------------------------------------------------------------------------------------------
// Existing volumes
// ------------------------------------------------------------------------------------------------

/// The value of a key; of several, the last counts.
pub open spec fn last_value(
    pairs: Seq<(Seq<char>, Seq<char>)>,
    key: Seq<char>,
) -> Option<Seq<char>>
    decreases pairs.len(),
{
    if pairs.len() == 0 {
        None
    } else if pairs.last().0 == key {
        Some(pairs.last().1)
    } else {
        last_value(pairs.drop_last(), key)
    }
}

/// What is wrong with one label that a mount asks for.
pub open spec fn label_mismatch(
    name: Seq<char>,
    label: (Seq<char>, Seq<char>),
    existing: Seq<(Seq<char>, Seq<char>)>,
) -> Option<ErrorView> {
    match last_value(existing, label.0) {
        Some(value) => if value == label.1 {
            None
        } else {
            Some(
                ErrorView::InvalidConfig(
                    "named volume "@ + quoted_text(name) + " already exists with label "@
                        + quoted_text(label.0) + "="@ + quoted_text(value)
                        + ", but this sandbox requested "@ + quoted_text(label.1),
                ),
            )
        },
        None => Some(
            ErrorView::InvalidConfig(
                "named volume "@ + quoted_text(name) + " already exists without requested label "@
                    + quoted_text(label.0),
            ),
        ),
    }
}

/// What is wrong with the labels that a mount asks for: the first that is missing or differs.
pub open spec fn labels_mismatch(
    name: Seq<char>,
    requested: Seq<(Seq<char>, Seq<char>)>,
    existing: Seq<(Seq<char>, Seq<char>)>,
) -> Option<ErrorView>
    decreases requested.len(),
{
    if requested.len() == 0 {
        None
    } else {
        match label_mismatch(name, requested[0], existing) {
            Some(e) => Some(e),
            None => labels_mismatch(name, requested.drop_first(), existing),
        }
    }
}

/// What is wrong with the labels that a mount asks for, given the stored text.
pub open spec fn stored_labels_mismatch(
    name: Seq<char>,
    requested: Seq<(Seq<char>, Seq<char>)>,
    stored: Option<Seq<char>>,
) -> Option<ErrorView> {
    if requested.len() == 0 {
        None
    } else {
        match stored {
            None => labels_mismatch(name, requested, Seq::empty()),
            Some(text) => match json_pairs(text) {
                Some(existing) => labels_mismatch(name, requested, existing),
                None => Some(ErrorView::Json),
            },
        }
    }
}

/// An optional integer as std's `Debug` writes it.
pub open spec fn optional_text(n: Option<int>) -> Seq<char> {
    match n {
        Some(i) => "Some("@ + signed_decimal(i) + ")"@,
        None => "None"@,
    }
}

/// An optional 32-bit integer.
pub open spec fn wide32(n: Option<i32>) -> Option<int> {
    match n {
        Some(i) => Some(i as int),
        None => None,
    }
}

/// An optional 64-bit integer.
pub open spec fn wide64(n: Option<i64>) -> Option<int> {
    match n {
        Some(i) => Some(i as int),
        None => None,
    }
}

/// The failure of a request for another kind.
pub open spec fn kind_mismatch(name: Seq<char>, actual: VolumeKind, requested: VolumeKind) -> ErrorView {
    ErrorView::InvalidConfig(
        "named volume "@ + quoted_text(name) + " already exists as "@ + actual.text()
            + ", but this sandbox requested "@ + requested.text(),
    )
}

/// The failure of a request for another quota.
pub open spec fn quota_mismatch(name: Seq<char>, actual: Option<i32>, requested: u32) -> ErrorView {
    ErrorView::InvalidConfig(
        "named volume "@ + quoted_text(name) + " already exists with quota "@ + optional_text(
            wide32(actual),
        ) + " MiB, but this sandbox requested "@ + decimal(requested as nat) + " MiB"@,
    )
}

/// The failure of a request for another capacity.
pub open spec fn capacity_mismatch(
    name: Seq<char>,
    actual: Option<i64>,
    requested_bytes: int,
) -> ErrorView {
    ErrorView::InvalidConfig(
        "named volume "@ + quoted_text(name) + " already exists with capacity "@ + optional_text(
            wide64(actual),
        ) + " bytes, but this sandbox requested "@ + signed_decimal(requested_bytes) + " bytes"@,
    )
}

/// What keeps a stored volume from serving a request: its kind, its quota, its capacity or its
/// labels, in this order. What the request leaves open is not looked at.
pub open spec fn volume_mismatch(requested: NamedVolumeCreate, existing: VolumeRow) -> Option<
    ErrorView,
> {
    let name = requested.name@;
    let kind = stored_kind(existing.kind@);
    if requested.kind != kind {
        Some(kind_mismatch(name, kind, requested.kind))
    } else if requested.quota_mib is Some && existing.quota_mib != Some(
        requested.quota_mib->0 as i32,
    ) {
        Some(quota_mismatch(name, existing.quota_mib, requested.quota_mib->0))
    } else if requested.capacity_mib is Some && existing.capacity_bytes != Some(
        (requested.capacity_mib->0 * MIB) as i64,
    ) {
        Some(
            capacity_mismatch(
                name,
                existing.capacity_bytes,
                requested.capacity_mib->0 * MIB,
            ),
        )
    } else {
        stored_labels_mismatch(name, pair_views(requested.labels@), text_of(existing.labels))
    }
}

fn optional_signed(n: Option<i64>) -> (r: String)
    ensures
        r@ == optional_text(wide64(n)),
{
    match n {
        Some(i) => {
            let mut out = "Some(".to_owned();
            out.append(signed_text(i).as_str());
            out.append(")");
            out
        },
        None => "None".to_owned(),
    }
}

fn label_value<'a>(pairs: &'a Vec<(String, String)>, key: &str) -> (r: Option<&'a String>)
    ensures
        match r {
            Some(v) => last_value(pair_views(pairs@), key@) == Some(v@),
            None => last_value(pair_views(pairs@), key@) is None,
        },
{
    let ghost all = pair_views(pairs@);
    let mut i: usize = pairs.len();
    assert(all.take(all.len() as int) =~= all);
    while i > 0
        invariant
            i <= pairs@.len(),
            all == pair_views(pairs@),
            last_value(all, key@) == last_value(all.take(i as int), key@),
        decreases i,
    {
        assert(all.take(i as int).drop_last() =~= all.take(i - 1));
        assert(all.take(i as int).last() == all[i - 1]);
        if same(pairs[i - 1].0.as_str(), key) {
            return Some(&pairs[i - 1].1);
        }
        i = i - 1;
    }
    None
}

/// Checks the labels that a mount asks for against those of the volume.
pub fn check_labels(
    name: &str,
    requested: &Vec<(String, String)>,
    existing: &Vec<(String, String)>,
) -> (r: MicrosandboxResult<()>)
    ensures
        failure(r) == labels_mismatch(name@, pair_views(requested@), pair_views(existing@)),
{
    let ghost all = pair_views(requested@);
    let mut i: usize = 0;
    assert(all.skip(0) =~= all);
    while i < requested.len()
        invariant
            i <= requested@.len(),
            all == pair_views(requested@),
            labels_mismatch(name@, all, pair_views(existing@)) == labels_mismatch(
                name@,
                all.skip(i as int),
                pair_views(existing@),
            ),
        decreases requested@.len() - i,
    {
        let key = &requested[i].0;
        let value = &requested[i].1;
        assert(all.skip(i as int)[0] == (key@, value@));
        assert(all.skip(i as int).drop_first() =~= all.skip(i + 1));
        match label_value(existing, key.as_str()) {
            Some(stored) => {
                if !same(stored.as_str(), value.as_str()) {
                    let mut message = "named volume ".to_owned();
                    message.append(quoted(name).as_str());
                    message.append(" already exists with label ");
                    message.append(quoted(key.as_str()).as_str());
                    message.append("=");
                    message.append(quoted(stored.as_str()).as_str());
                    message.append(", but this sandbox requested ");
                    message.append(quoted(value.as_str()).as_str());
                    return Err(MicrosandboxError::InvalidConfig(message));
                }
            },
            None => {
                let mut message = "named volume ".to_owned();
                message.append(quoted(name).as_str());
                message.append(" already exists without requested label ");
                message.append(quoted(key.as_str()).as_str());
                return Err(MicrosandboxError::InvalidConfig(message));
            },
        }
        i = i + 1;
    }
    Ok(())
}

/// Checks the labels that a mount asks for against the stored text.
pub fn validate_requested_named_volume_labels(
    requested: &NamedVolumeCreate,
    existing: &VolumeRow,
) -> (r: MicrosandboxResult<()>)
    ensures
        failure(r) == stored_labels_mismatch(
            requested.name@,
            pair_views(requested.labels@),
            text_of(existing.labels),
        ),
{
    if requested.labels.len() == 0 {
        return Ok(());
    }
    let stored: Vec<(String, String)> = match &existing.labels {
        None => {
            let none: Vec<(String, String)> = Vec::new();
            assert(pair_views(none@) =~= Seq::empty());
            none
        },
        Some(text) => match pairs_from_json(text.as_str()) {
            Some(pairs) => pairs,
            None => {
                return Err(MicrosandboxError::Json);
            },
        },
    };
    check_labels(requested.name.as_str(), &requested.labels, &stored)
}

/// Checks that a stored volume can serve a request.
pub fn validate_existing_named_volume(requested: &NamedVolumeCreate, existing: &VolumeRow) -> (r:
    MicrosandboxResult<()>)
    ensures
        failure(r) == volume_mismatch(*requested, *existing),
{
    let actual = VolumeKind::from_db_value(existing.kind.as_str());
    if requested.kind != actual {
        let mut message = "named volume ".to_owned();
        message.append(quoted(requested.name.as_str()).as_str());
        message.append(" already exists as ");
        message.append(actual.as_str());
        message.append(", but this sandbox requested ");
        message.append(requested.kind.as_str());
        return Err(MicrosandboxError::InvalidConfig(message));
    }
    if let Some(quota) = requested.quota_mib {
        let matches = match existing.quota_mib {
            Some(stored) => stored == quota as i32,
            None => false,
        };
        if !matches {
            let mut message = "named volume ".to_owned();
            message.append(quoted(requested.name.as_str()).as_str());
            message.append(" already exists with quota ");
            let stored: Option<i64> = match existing.quota_mib {
                Some(q) => Some(q as i64),
                None => None,
            };
            message.append(optional_signed(stored).as_str());
            message.append(" MiB, but this sandbox requested ");
            message.append(decimal_text(quota as u64).as_str());
            message.append(" MiB");
            return Err(MicrosandboxError::InvalidConfig(message));
        }
    }
    if let Some(capacity) = requested.capacity_mib {
        let bytes: i64 = capacity as i64 * MIB;
        let matches = match existing.capacity_bytes {
            Some(stored) => stored == bytes,
            None => false,
        };
        if !matches {
            let mut message = "named volume ".to_owned();
            message.append(quoted(requested.name.as_str()).as_str());
            message.append(" already exists with capacity ");
            message.append(optional_signed(existing.capacity_bytes).as_str());
            message.append(" bytes, but this sandbox requested ");
            message.append(signed_text(bytes).as_str());
            message.append(" bytes");
            return Err(MicrosandboxError::InvalidConfig(message));
        }
    }
    validate_requested_named_volume_labels(requested, existing)
}

// ------------------------------------------------------------------------------------------------
// New volumes
// ------------------------------------------------------------------------------------------------

/// Whether no key is asked for with two values.
pub open spec fn labels_agree(labels: Seq<(Seq<char>, Seq<char>)>) -> bool {
    forall|i: int, j: int|
        0 <= i < labels.len() && 0 <= j < labels.len() && (#[trigger] labels[i]).0 == (
        #[trigger] labels[j]).0 ==> labels[i].1 == labels[j].1
}

/// Whether a row stores a request.
pub open spec fn stores(row: VolumeRow, create: NamedVolumeCreate) -> bool {
    &&& row.name@ == create.name@
    &&& row.kind@ == create.kind.text()
    &&& row.quota_mib == match create.quota_mib {
        Some(q) => Some(q as i32),
        None => None,
    }
    &&& row.capacity_bytes == match create.capacity_mib {
        Some(c) => Some((c * MIB) as i64),
        None => None,
    }
    &&& text_of(row.disk_format) == if create.kind == VolumeKind::Disk {
        Some("raw"@)
    } else {
        None
    }
    &&& text_of(row.disk_fstype) == if create.kind == VolumeKind::Disk {
        Some("ext4"@)
    } else {
        None
    }
    &&& text_of(row.labels) == if create.labels@.len() == 0 {
        None
    } else {
        Some(pairs_json(pair_views(create.labels@)))
    }
}

proof fn lemma_last_value_found(labels: Seq<(Seq<char>, Seq<char>)>, n: int, i: int)
    requires
        labels_agree(labels),
        0 <= i < n <= labels.len(),
    ensures
        last_value(labels.take(n), labels[i].0) == Some(labels[i].1),
    decreases n,
{
    let front = labels.take(n);
    assert(front.last() == labels[n - 1]);
    if labels[n - 1].0 != labels[i].0 {
        assert(front.drop_last() =~= labels.take(n - 1));
        lemma_last_value_found(labels, n - 1, i);
    }
}

proof fn lemma_labels_match_themselves(
    name: Seq<char>,
    labels: Seq<(Seq<char>, Seq<char>)>,
    from: int,
)
    requires
        labels_agree(labels),
        0 <= from <= labels.len(),
    ensures
        labels_mismatch(name, labels.skip(from), labels) is None,
    decreases labels.len() - from,
{
    if from < labels.len() {
        lemma_last_value_found(labels, labels.len() as int, from);
        assert(labels.take(labels.len() as int) =~= labels);
        assert(labels.skip(from).drop_first() =~= labels.skip(from + 1));
        lemma_labels_match_themselves(name, labels, from + 1);
    }
}

/// The row that stores a new volume. The same request is served by it later, unless it asks for
/// one label with two values.
pub fn new_volume_row(create: &NamedVolumeCreate, id: i32) -> (r: VolumeRow)
    ensures
        stores(r, *create),
        r.id == id,
        labels_agree(pair_views(create.labels@)) ==> volume_mismatch(*create, r) is None,
{
    let labels = if create.labels.len() == 0 {
        None
    } else {
        Some(pairs_to_json(&create.labels))
    };
    let is_disk = create.kind == VolumeKind::Disk;
    let row = VolumeRow {
        id,
        name: create.name.clone(),
        kind: create.kind.as_str().to_owned(),
        quota_mib: match create.quota_mib {
            Some(q) => Some(q as i32),
            None => None,
        },
        capacity_bytes: match create.capacity_mib {
            Some(c) => Some(c as i64 * MIB),
            None => None,
        },
        disk_format: if is_disk {
            Some("raw".to_owned())
        } else {
            None
        },
        disk_fstype: if is_disk {
            Some("ext4".to_owned())
        } else {
            None
        },
        labels,
    };
    proof {
        reveal_strlit("dir");
        reveal_strlit("disk");
        assert("dir"@ != "disk"@) by {
            assert("dir"@.len() == 3);
            assert("disk"@.len() == 4);
        }
        let wanted = pair_views(create.labels@);
        if labels_agree(wanted) {
            lemma_labels_match_themselves(create.name@, wanted, 0);
            assert(wanted.skip(0) =~= wanted);
        }
    }
    row
}

/// What a mount's request means for its volume.
#[derive(Clone, Copy, Debug, PartialEq, Eq, Structural)]
pub enum VolumeAction {
    /// Fail: the name is taken.
    Taken,
    /// Check that the stored volume serves the request.
    Validate,
    /// Use the stored volume as it is.
    Keep,
    /// Fail: there is no such volume.
    Missing,
    /// Make the volume.
    Make,
}

/// What a mount's request means for its volume.
pub open spec fn volume_action(mode: NamedVolumeMode, exists: bool) -> VolumeAction {
    match (mode, exists) {
        (NamedVolumeMode::Create, true) => VolumeAction::Taken,
        (NamedVolumeMode::EnsureExists, true) => VolumeAction::Validate,
        (NamedVolumeMode::Existing, true) => VolumeAction::Keep,
        (NamedVolumeMode::Existing, false) => VolumeAction::Missing,
        (_, false) => VolumeAction::Make,
    }
}

/// What a mount's request means for its volume.
pub fn named_volume_action(mode: NamedVolumeMode, exists: bool) -> (r: VolumeAction)
    ensures
        r == volume_action(mode, exists),
{
    match (mode, exists) {
        (NamedVolumeMode::Create, true) => VolumeAction::Taken,
        (NamedVolumeMode::EnsureExists, true) => VolumeAction::Validate,
        (NamedVolumeMode::Existing, true) => VolumeAction::Keep,
        (NamedVolumeMode::Existing, false) => VolumeAction::Missing,
        (_, false) => VolumeAction::Make,
    }
}

/// Decides about one request: `Ok(true)` makes the volume, `Ok(false)` uses the stored one.
pub open spec fn request_outcome(
    create: NamedVolumeCreate,
    existing: Option<VolumeRow>,
) -> Result<bool, ErrorView> {
    match volume_action(create.mode, existing is Some) {
        VolumeAction::Taken => Err(ErrorView::VolumeAlreadyExists(create.name@)),
        VolumeAction::Validate => match volume_mismatch(create, existing->0) {
            Some(e) => Err(e),
            None => Ok(false),
        },
        VolumeAction::Keep => Ok(false),
        VolumeAction::Missing => Err(ErrorView::VolumeNotFound(create.name@)),
        VolumeAction::Make => Ok(true),
    }
}

/// Decides about one request: `Ok(true)` makes the volume, `Ok(false)` uses the stored one.
pub fn decide_request(create: &NamedVolumeCreate, existing: &Option<VolumeRow>) -> (r:
    MicrosandboxResult<bool>)
    ensures
        match r {
            Ok(make) => request_outcome(*create, *existing) == Ok::<bool, ErrorView>(make),
            Err(e) => request_outcome(*create, *existing) == Err::<bool, ErrorView>(e@),
        },
{
    match named_volume_action(create.mode, existing.is_some()) {
        VolumeAction::Taken => Err(MicrosandboxError::VolumeAlreadyExists(create.name.clone())),
        VolumeAction::Validate => {
            if let Some(row) = existing {
                match validate_existing_named_volume(create, row) {
                    Ok(()) => Ok(false),
                    Err(e) => Err(e),
                }
            } else {
                Ok(false)
            }
        },
        VolumeAction::Keep => Ok(false),
        VolumeAction::Missing => Err(MicrosandboxError::VolumeNotFound(create.name.clone())),
        VolumeAction::Make => Ok(true),
    }
}

// ------------------------------------------------------------------------------------------------
// Locking order
// ------------------------------------------------------------------------------------------------

/// The names of the named volumes among the mounts.
pub open spec fn volume_names(mounts: Seq<VolumeMount>) -> Set<Seq<char>> {
    Set::new(|n: Seq<char>| exists|i: int| mounts_name(mounts, i, n))
}

/// Whether mount `i` is a named volume called `n`.
pub open spec fn mounts_name(mounts: Seq<VolumeMount>, i: int, n: Seq<char>) -> bool {
    0 <= i < mounts.len() && (mounts[i] matches VolumeMount::Named { name, .. } && name@ == n)
}

/// Whether texts stand in strictly ascending order.
pub open spec fn ascending(names: Seq<Seq<char>>) -> bool {
    forall|i: int, j: int|
        0 <= i < j < names.len() ==> precedes(#[trigger] names[i], #[trigger] names[j])
}

/// Ascending lists with the same members are the same list, so any two sandboxes lock the
/// volumes they share in the same order.
pub proof fn ascending_lists_are_unique(a: Seq<Seq<char>>, b: Seq<Seq<char>>)
    requires
        ascending(a),
        ascending(b),
        forall|n: Seq<char>| a.contains(n) <==> b.contains(n),
    ensures
        a == b,
    decreases a.len(),
{
    if a.len() == 0 {
        if b.len() > 0 {
            assert(b.contains(b[0]));
        }
        assert(a =~= b);
    } else {
        assert(a.contains(a[0]));
        let i = choose|i: int| 0 <= i < b.len() && b[i] == a[0];
        assert(b.contains(b[0]));
        let j = choose|j: int| 0 <= j < a.len() && a[j] == b[0];
        if a[0] != b[0] {
            assert(precedes(b[0], b[i]));
            assert(precedes(a[0], a[j]));
            lemma_precedes_transitive(a[0], b[0], a[0]);
            lemma_precedes_irreflexive(a[0]);
        }
        let ra = a.drop_first();
        let rb = b.drop_first();
        assert forall|n: Seq<char>| ra.contains(n) implies rb.contains(n) by {
            let k = choose|k: int| 0 <= k < ra.len() && ra[k] == n;
            assert(a[k + 1] == n);
            assert(precedes(a[0], a[k + 1]));
            lemma_precedes_irreflexive(a[0]);
            assert(b.contains(n));
            let m = choose|m: int| 0 <= m < b.len() && b[m] == n;
            assert(rb[m - 1] == n);
        }
        assert forall|n: Seq<char>| rb.contains(n) implies ra.contains(n) by {
            let k = choose|k: int| 0 <= k < rb.len() && rb[k] == n;
            assert(b[k + 1] == n);
            assert(precedes(b[0], b[k + 1]));
            lemma_precedes_irreflexive(b[0]);
            assert(a.contains(n));
            let m = choose|m: int| 0 <= m < a.len() && a[m] == n;
            assert(ra[m - 1] == n);
        }
        assert forall|x: int, y: int| 0 <= x < y < ra.len() implies precedes(
            #[trigger] ra[x],
            #[trigger] ra[y],
        ) by {
            assert(precedes(a[x + 1], a[y + 1]));
        }
        assert forall|x: int, y: int| 0 <= x < y < rb.len() implies precedes(
            #[trigger] rb[x],
            #[trigger] rb[y],
        ) by {
            assert(precedes(b[x + 1], b[y + 1]));
        }
        ascending_lists_are_unique(ra, rb);
        assert(a =~= seq![a[0]] + ra);
        assert(b =~= seq![b[0]] + rb);
    }
}

/// Puts a name into an ascending list, unless it is there.
fn insert_name(names: &mut Vec<String>, name: &String)
    requires
        ascending(views(old(names)@)),
    ensures
        ascending(views(final(names)@)),
        forall|n: Seq<char>|
            views(final(names)@).contains(n) <==> views(old(names)@).contains(n) || n == name@,
{
    let ghost before = views(names@);
    let mut i: usize = 0;
    while i < names.len() && is_before(names[i].as_str(), name.as_str())
        invariant
            i <= names@.len(),
            before == views(names@),
            forall|k: int| 0 <= k < i ==> precedes(#[trigger] before[k], name@),
        decreases names@.len() - i,
    {
        assert(before[i as int] == names@[i as int]@);
        i = i + 1;
    }
    if i < names.len() && same(names[i].as_str(), name.as_str()) {
        assert(before[i as int] == name@);
        return ;
    }
    proof {
        if i < names@.len() {
            assert(before[i as int] == names@[i as int]@);
            lemma_precedes_total(before[i as int], name@);
            assert forall|k: int| i <= k < before.len() implies precedes(
                name@,
                #[trigger] before[k],
            ) by {
                if k > i {
                    lemma_precedes_transitive(name@, before[i as int], before[k]);
                }
            }
        }
    }
    names.insert(i, name.clone());
    proof {
        let after = views(names@);
        assert(after =~= before.insert(i as int, name@));
        assert forall|x: int, y: int| 0 <= x < y < after.len() implies precedes(
            #[trigger] after[x],
            #[trigger] after[y],
        ) by {
            if x < i && y < i {
                assert(after[x] == before[x] && after[y] == before[y]);
            } else if x < i && y == i {
                assert(after[x] == before[x]);
            } else if x < i {
                assert(after[x] == before[x] && after[y] == before[y - 1]);
            } else if x == i {
                assert(after[y] == before[y - 1]);
            } else {
                assert(after[x] == before[x - 1] && after[y] == before[y - 1]);
            }
        }
        assert forall|n: Seq<char>| after.contains(n) implies before.contains(n) || n == name@ by {
            let k = choose|k: int| 0 <= k < after.len() && after[k] == n;
            if k < i {
                assert(before[k] == n);
            } else if k > i {
                assert(before[k - 1] == n);
            }
        }
        assert forall|n: Seq<char>| before.contains(n) || n == name@ implies after.contains(n) by {
            if n == name@ {
                assert(after[i as int] == n);
            } else {
                let k = choose|k: int| 0 <= k < before.len() && before[k] == n;
                if k < i {
                    assert(after[k] == n);
                } else {
                    assert(after[k + 1] == n);
                }
            }
        }
    }
}

/// The named volumes that a sandbox locks, each once, in the order in which it locks them.
pub fn lock_named_volume_mounts(mounts: &Vec<VolumeMount>) -> (r: Vec<String>)
    ensures
        ascending(views(r@)),
        forall|n: Seq<char>| views(r@).contains(n) <==> volume_names(mounts@).contains(n),
{
    let mut names: Vec<String> = Vec::new();
    let mut i: usize = 0;
    while i < mounts.len()
        invariant
            i <= mounts@.len(),
            ascending(views(names@)),
            forall|n: Seq<char>|
                views(names@).contains(n) <==> exists|k: int| k < i && mounts_name(mounts@, k, n),
        decreases mounts@.len() - i,
    {
        let ghost before = views(names@);
        if let VolumeMount::Named { name, .. } = &mounts[i] {
            insert_name(&mut names, name);
            assert forall|n: Seq<char>| views(names@).contains(n) implies exists|k: int|
                k < i + 1 && mounts_name(mounts@, k, n) by {
                if before.contains(n) {
                    let k = choose|k: int| k < i && mounts_name(mounts@, k, n);
                    assert(k < i + 1 && mounts_name(mounts@, k, n));
                } else {
                    assert(mounts_name(mounts@, i as int, n));
                }
            }
            assert forall|n: Seq<char>|
                (exists|k: int| k < i + 1 && mounts_name(mounts@, k, n)) implies views(
                names@,
            ).contains(n) by {
                let k = choose|k: int| k < i + 1 && mounts_name(mounts@, k, n);
                if k < i {
                    assert(before.contains(n));
                }
            }
        } else {
            assert forall|n: Seq<char>|
                (exists|k: int| k < i + 1 && mounts_name(mounts@, k, n)) implies views(
                names@,
            ).contains(n) by {
                let k = choose|k: int| k < i + 1 && mounts_name(mounts@, k, n);
                assert(k < i && mounts_name(mounts@, k, n));
            }
        }
        i = i + 1;
    }
    assert forall|n: Seq<char>| views(names@).contains(n) implies volume_names(mounts@).contains(
        n,
    ) by {
        let k = choose|k: int| k < i && mounts_name(mounts@, k, n);
        assert(mounts_name(mounts@, k, n));
    }
    assert forall|n: Seq<char>| volume_names(mounts@).contains(n) implies views(names@).contains(
        n,
    ) by {
        let k = choose|k: int| mounts_name(mounts@, k, n);
        assert(k < i && mounts_name(mounts@, k, n));
    }
    names
}

// ------------------------------------------------------------------------------------------------
// Resolution
// ------------------------------------------------------------------------------------------------

/// A resolved volume as mathematical values.
pub struct ResolvedView {
    pub kind: VolumeKind,
    pub path: Seq<char>,
    pub format: Option<DiskImageFormat>,
    pub fstype: Option<Seq<char>>,
    pub quota_mib: Option<u32>,
}

impl View for ResolvedNamedVolume {
    type V = ResolvedView;

    open spec fn view(&self) -> ResolvedView {
        ResolvedView {
            kind: self.kind,
            path: self.path@,
            format: self.format,
            fstype: text_of(self.fstype),
            quota_mib: self.quota_mib,
        }
    }
}

/// The disk format that a row stores; `raw` where it stores none.
pub open spec fn stored_format(row: VolumeRow) -> Seq<char> {
    match row.disk_format {
        Some(f) => f@,
        None => "raw"@,
    }
}

/// A stored quota; one below zero counts as zero.
pub open spec fn stored_quota(quota: Option<i32>) -> Option<u32> {
    match quota {
        Some(q) => Some(
            if q < 0 {
                0
            } else {
                q as u32
            },
        ),
        None => None,
    }
}

/// The storage of a stored volume below the directory of volumes.
pub open spec fn resolution(
    row: VolumeRow,
    volumes_dir: Seq<char>,
    name: Seq<char>,
    windows: bool,
) -> ResolvedView {
    let dir = host_joined(volumes_dir, name, windows);
    match stored_kind(row.kind@) {
        VolumeKind::Directory => ResolvedView {
            kind: VolumeKind::Directory,
            path: dir,
            format: None,
            fstype: None,
            quota_mib: stored_quota(row.quota_mib),
        },
        VolumeKind::Disk => ResolvedView {
            kind: VolumeKind::Disk,
            path: host_joined(dir, "disk.raw"@, windows),
            format: disk_format_of(stored_format(row)),
            fstype: text_of(row.disk_fstype),
            quota_mib: None,
        },
    }
}

/// What keeps one mount from being resolved: its volume is missing, its options do not suit a
/// disk, or the stored disk format is unknown. `objection` is what is held against the mount's
/// options on a disk, `format_error` how the error of an unknown format reads.
pub open spec fn resolution_failure(
    mount: VolumeMount,
    rows: Map<Seq<char>, VolumeRow>,
    objection: Option<Seq<char>>,
    format_error: Seq<char>,
) -> Option<ErrorView> {
    match mount {
        VolumeMount::Named { name, .. } => if !rows.dom().contains(name@) {
            Some(ErrorView::VolumeNotFound(name@))
        } else if stored_kind(rows[name@].kind@) == VolumeKind::Directory {
            None
        } else if objection is Some {
            Some(ErrorView::InvalidConfig(objection->0))
        } else if disk_format_of(stored_format(rows[name@])) is None {
            Some(
                ErrorView::InvalidConfig(
                    "disk named volume "@ + quoted_text(name@) + " has invalid disk format: "@
                        + format_error,
                ),
            )
        } else {
            None
        },
        _ => None,
    }
}

fn resolve_row(
    row: &VolumeRow,
    volumes_dir: &str,
    name: &str,
    format: Option<DiskImageFormat>,
    windows: bool,
) -> (r: ResolvedNamedVolume)
    requires
        stored_kind(row.kind@) == VolumeKind::Disk ==> format == disk_format_of(
            stored_format(*row),
        ),
    ensures
        r@ == resolution(*row, volumes_dir@, name@, windows),
{
    let dir = host_join(volumes_dir, name, windows);
    match VolumeKind::from_db_value(row.kind.as_str()) {
        VolumeKind::Directory => ResolvedNamedVolume {
            kind: VolumeKind::Directory,
            path: dir,
            format: None,
            fstype: None,
            quota_mib: match row.quota_mib {
                Some(q) => Some(
                    if q < 0 {
                        0
                    } else {
                        q as u32
                    },
                ),
                None => None,
            },
        },
        VolumeKind::Disk => ResolvedNamedVolume {
            kind: VolumeKind::Disk,
            path: host_join(dir.as_str(), "disk.raw", windows),
            format,
            fstype: crate::launch::copy_text(&row.disk_fstype),
            quota_mib: None,
        },
    }
}

/// Finds the storage of every named volume that a sandbox mounts.
///
/// `rows` holds the stored volumes, `objections` what is held against each mount's options
/// should its volume be a disk, and `format_errors` how the error reads should the stored format
/// of each mount's volume be unknown.
pub fn resolve_named_volumes(
    mounts: &Vec<VolumeMount>,
    rows: &NameMap<VolumeRow>,
    objections: &Vec<Option<String>>,
    format_errors: &Vec<String>,
    volumes_dir: &str,
    windows: bool,
) -> (r: MicrosandboxResult<NameMap<ResolvedNamedVolume>>)
    requires
        objections@.len() == mounts@.len(),
        format_errors@.len() == mounts@.len(),
    ensures
        match r {
            Ok(map) => {
                &&& forall|i: int|
                    0 <= i < mounts@.len() ==> resolution_failure(
                        #[trigger] mounts@[i],
                        rows@,
                        text_of(objections@[i]),
                        format_errors@[i]@,
                    ) is None
                &&& forall|n: Seq<char>|
                    map@.dom().contains(n) <==> volume_names(mounts@).contains(n)
                &&& forall|n: Seq<char>| #[trigger]
                    map@.dom().contains(n) ==> map@[n]@ == resolution(
                        rows@[n],
                        volumes_dir@,
                        n,
                        windows,
                    )
            },
            Err(e) => exists|i: int|
                0 <= i < mounts@.len() && resolution_failure(
                    #[trigger] mounts@[i],
                    rows@,
                    text_of(objections@[i]),
                    format_errors@[i]@,
                ) == Some(e@) && (forall|k: int|
                    0 <= k < i ==> resolution_failure(
                        #[trigger] mounts@[k],
                        rows@,
                        text_of(objections@[k]),
                        format_errors@[k]@,
                    ) is None),
        },
{
    let mut map: NameMap<ResolvedNamedVolume> = NameMap::new();
    let mut i: usize = 0;
    while i < mounts.len()
        invariant
            i <= mounts@.len(),
            objections@.len() == mounts@.len(),
            format_errors@.len() == mounts@.len(),
            forall|k: int|
                0 <= k < i ==> resolution_failure(
                    #[trigger] mounts@[k],
                    rows@,
                    text_of(objections@[k]),
                    format_errors@[k]@,
                ) is None,
            forall|n: Seq<char>|
                map@.dom().contains(n) <==> exists|k: int| k < i && mounts_name(mounts@, k, n),
            forall|n: Seq<char>| #[trigger]
                map@.dom().contains(n) ==> map@[n]@ == resolution(
                        rows@[n],
                        volumes_dir@,
                        n,
                        windows,
                    ),
        decreases mounts@.len() - i,
    {
        let ghost before = map@;
        if let VolumeMount::Named { name, .. } = &mounts[i] {
            let row = match rows.get(name.as_str()) {
                Some(row) => row,
                None => {
                    assert(resolution_failure(
                        mounts@[i as int],
                        rows@,
                        text_of(objections@[i as int]),
                        format_errors@[i as int]@,
                    ) == Some(ErrorView::VolumeNotFound(name@)));
                    return Err(MicrosandboxError::VolumeNotFound(name.clone()));
                },
            };
            let mut format: Option<DiskImageFormat> = None;
            if VolumeKind::from_db_value(row.kind.as_str()) == VolumeKind::Disk {
                if let Some(objection) = &objections[i] {
                    assert(resolution_failure(
                        mounts@[i as int],
                        rows@,
                        text_of(objections@[i as int]),
                        format_errors@[i as int]@,
                    ) == Some(ErrorView::InvalidConfig(objection@)));
                    return Err(MicrosandboxError::InvalidConfig(objection.clone()));
                }
                let stored = match &row.disk_format {
                    Some(f) => f.as_str(),
                    None => "raw",
                };
                format = DiskImageFormat::parse(stored);
                if format.is_none() {
                    let mut message = "disk named volume ".to_owned();
                    message.append(quoted(name.as_str()).as_str());
                    message.append(" has invalid disk format: ");
                    message.append(format_errors[i].as_str());
                    assert(resolution_failure(
                        mounts@[i as int],
                        rows@,
                        text_of(objections@[i as int]),
                        format_errors@[i as int]@,
                    ) == Some(ErrorView::InvalidConfig(message@)));
                    return Err(MicrosandboxError::InvalidConfig(message));
                }
            }
            let volume = resolve_row(row, volumes_dir, name.as_str(), format, windows);
            map = map.with(name.clone(), volume);
            assert forall|n: Seq<char>| map@.dom().contains(n) implies exists|k: int|
                k < i + 1 && mounts_name(mounts@, k, n) by {
                if before.dom().contains(n) {
                    let k = choose|k: int| k < i && mounts_name(mounts@, k, n);
                    assert(k < i + 1 && mounts_name(mounts@, k, n));
                } else {
                    assert(mounts_name(mounts@, i as int, n));
                }
            }
            assert forall|n: Seq<char>|
                (exists|k: int| k < i + 1 && mounts_name(mounts@, k, n)) implies map@.dom().contains(
                n,
            ) by {
                let k = choose|k: int| k < i + 1 && mounts_name(mounts@, k, n);
                if k < i {
                    assert(before.dom().contains(n));
                }
            }
        } else {
            assert forall|n: Seq<char>|
                (exists|k: int| k < i + 1 && mounts_name(mounts@, k, n)) implies map@.dom().contains(
                n,
            ) by {
                let k = choose|k: int| k < i + 1 && mounts_name(mounts@, k, n);
                assert(k < i && mounts_name(mounts@, k, n));
            }
        }
        i = i + 1;
    }
    assert forall|n: Seq<char>| map@.dom().contains(n) implies volume_names(mounts@).contains(n) by {
        let k = choose|k: int| k < i && mounts_name(mounts@, k, n);
        assert(mounts_name(mounts@, k, n));
    }
    assert forall|n: Seq<char>| volume_names(mounts@).contains(n) implies map@.dom().contains(n) by {
        let k = choose|k: int| mounts_name(mounts@, k, n);
        assert(k < i && mounts_name(mounts@, k, n));
    }
    Ok(map)
}

// ------------------------------------------------------------------------------------------------
// Making volumes
// ------------------------------------------------------------------------------------------------

/// What is done next about the volumes that a sandbox asks for. Requests are counted from zero.
#[derive(Clone, Copy, Debug, PartialEq, Eq, Structural)]
pub enum EnsureStep {
    /// Check the name that a request gives.
    CheckName { request: usize },
    /// Look the volume up and decide about the request.
    Decide { request: usize },
    /// Check the settings of the new volume.
    CheckSettings { request: usize },
    /// Insert the row of the new volume.
    Insert { request: usize },
    /// Make the storage of the new volume.
    Materialize { request: usize, id: i32 },
    /// Remove the row and what there is of the storage of a volume that could not be made.
    Discard { id: i32 },
    /// Remove the volumes made so far.
    RollBack,
    /// Every request is served.
    Ensured,
    /// No volume of this attempt is left.
    Failed,
}

/// What happened to the step.
#[derive(Clone, Copy, Debug, PartialEq, Eq, Structural)]
pub enum EnsureEvent {
    Passed,
    Failed,
    /// Whether the request needs a new volume.
    Decided(bool),
    /// The row was inserted under this id.
    Inserted(i32),
}

/// The attempt to serve every request.
pub struct EnsureVolumes {
    pub step: EnsureStep,
    /// The volumes made so far, in order.
    pub created: Vec<i32>,
}

/// [`EnsureVolumes`] as mathematical values.
pub struct EnsureView {
    pub step: EnsureStep,
    pub created: Seq<i32>,
}

impl View for EnsureVolumes {
    type V = EnsureView;

    open spec fn view(&self) -> EnsureView {
        EnsureView { step: self.step, created: self.created@ }
    }
}

/// The step that takes up a request, or the end.
pub open spec fn take_up(request: int, total: usize) -> EnsureStep {
    if request < total {
        EnsureStep::CheckName { request: request as usize }
    } else {
        EnsureStep::Ensured
    }
}

/// The step in which an attempt fails: what was made is removed first.
pub open spec fn ensure_fails(created: Seq<i32>) -> EnsureStep {
    if created.len() == 0 {
        EnsureStep::Failed
    } else {
        EnsureStep::RollBack
    }
}

/// The attempt after an event. An event that the step does not expect changes nothing.
pub open spec fn ensure_next(state: EnsureView, event: EnsureEvent, total: usize) -> EnsureView {
    let created = state.created;
    match (state.step, event) {
        (EnsureStep::CheckName { request }, EnsureEvent::Passed) => EnsureView {
            step: EnsureStep::Decide { request },
            created,
        },
        (EnsureStep::Decide { request }, EnsureEvent::Decided(make)) => EnsureView {
            step: if make {
                EnsureStep::CheckSettings { request }
            } else {
                take_up(request + 1, total)
            },
            created,
        },
        (EnsureStep::CheckSettings { request }, EnsureEvent::Passed) => EnsureView {
            step: EnsureStep::Insert { request },
            created,
        },
        (EnsureStep::Insert { request }, EnsureEvent::Inserted(id)) => EnsureView {
            step: EnsureStep::Materialize { request, id },
            created,
        },
        (EnsureStep::Materialize { request, id }, EnsureEvent::Passed) => EnsureView {
            step: take_up(request + 1, total),
            created: created.push(id),
        },
        (EnsureStep::Materialize { request, id }, EnsureEvent::Failed) => EnsureView {
            step: EnsureStep::Discard { id },
            created,
        },
        (EnsureStep::CheckName { request }, EnsureEvent::Failed) => EnsureView {
            step: ensure_fails(created),
            created,
        },
        (EnsureStep::Decide { request }, EnsureEvent::Failed) => EnsureView {
            step: ensure_fails(created),
            created,
        },
        (EnsureStep::CheckSettings { request }, EnsureEvent::Failed) => EnsureView {
            step: ensure_fails(created),
            created,
        },
        (EnsureStep::Insert { request }, EnsureEvent::Failed) => EnsureView {
            step: ensure_fails(created),
            created,
        },
        // Removing is done as far as it goes.
        (EnsureStep::Discard { id }, EnsureEvent::Passed) => EnsureView {
            step: ensure_fails(created),
            created,
        },
        (EnsureStep::RollBack, EnsureEvent::Passed) => EnsureView {
            step: EnsureStep::Failed,
            created,
        },
        _ => state,
    }
}

impl EnsureVolumes {
    /// Begins to serve `total` requests.
    pub fn new(total: usize) -> (r: Self)
        ensures
            r@ == (EnsureView { step: take_up(0, total), created: Seq::empty() }),
    {
        EnsureVolumes { step: Self::taking_up(0, total), created: Vec::new() }
    }

    fn taking_up(request: usize, total: usize) -> (r: EnsureStep)
        ensures
            r == take_up(request as int, total),
    {
        if request < total {
            EnsureStep::CheckName { request }
        } else {
            EnsureStep::Ensured
        }
    }

    fn failing(created: &Vec<i32>) -> (r: EnsureStep)
        ensures
            r == ensure_fails(created@),
    {
        if created.len() == 0 {
            EnsureStep::Failed
        } else {
            EnsureStep::RollBack
        }
    }

    /// Takes an event into account.
    pub fn advance(&mut self, event: EnsureEvent, total: usize)
        ensures
            final(self)@ == ensure_next(old(self)@, event, total),
    {
        match (self.step, event) {
            (EnsureStep::CheckName { request }, EnsureEvent::Passed) => {
                self.step = EnsureStep::Decide { request };
            },
            (EnsureStep::Decide { request }, EnsureEvent::Decided(make)) => {
                self.step = if make {
                    EnsureStep::CheckSettings { request }
                } else if request == usize::MAX {
                    EnsureStep::Ensured
                } else {
                    Self::taking_up(request + 1, total)
                };
            },
            (EnsureStep::CheckSettings { request }, EnsureEvent::Passed) => {
                self.step = EnsureStep::Insert { request };
            },
            (EnsureStep::Insert { request }, EnsureEvent::Inserted(id)) => {
                self.step = EnsureStep::Materialize { request, id };
            },
            (EnsureStep::Materialize { request, id }, EnsureEvent::Passed) => {
                self.created.push(id);
                self.step = if request == usize::MAX {
                    EnsureStep::Ensured
                } else {
                    Self::taking_up(request + 1, total)
                };
            },
            (EnsureStep::Materialize { request: _, id }, EnsureEvent::Failed) => {
                self.step = EnsureStep::Discard { id };
            },
            (EnsureStep::CheckName { .. }, EnsureEvent::Failed) => {
                self.step = Self::failing(&self.created);
            },
            (EnsureStep::Decide { .. }, EnsureEvent::Failed) => {
                self.step = Self::failing(&self.created);
            },
            (EnsureStep::CheckSettings { .. }, EnsureEvent::Failed) => {
                self.step = Self::failing(&self.created);
            },
            (EnsureStep::Insert { .. }, EnsureEvent::Failed) => {
                self.step = Self::failing(&self.created);
            },
            (EnsureStep::Discard { .. }, EnsureEvent::Passed) => {
                self.step = Self::failing(&self.created);
            },
            (EnsureStep::RollBack, EnsureEvent::Passed) => {
                self.step = EnsureStep::Failed;
            },
            _ => {},
        }
    }
}

/// The attempt after a list of events.
pub open spec fn ensure_run(events: Seq<EnsureEvent>, total: usize) -> EnsureView
    decreases events.len(),
{
    if events.len() == 0 {
        EnsureView { step: take_up(0, total), created: Seq::empty() }
    } else {
        ensure_next(ensure_run(events.drop_last(), total), events.last(), total)
    }
}

/// The rows that an attempt inserted, in order.
pub open spec fn inserted_rows(events: Seq<EnsureEvent>, total: usize) -> Seq<i32>
    decreases events.len(),
{
    if events.len() == 0 {
        Seq::empty()
    } else {
        let before = events.drop_last();
        match (ensure_run(before, total).step, events.last()) {
            (EnsureStep::Insert { request }, EnsureEvent::Inserted(id)) => inserted_rows(
                before,
                total,
            ).push(id),
            _ => inserted_rows(before, total),
        }
    }
}

/// The rows that an attempt discarded one by one.
pub open spec fn discarded_rows(events: Seq<EnsureEvent>, total: usize) -> Seq<i32>
    decreases events.len(),
{
    if events.len() == 0 {
        Seq::empty()
    } else {
        let before = events.drop_last();
        match (ensure_run(before, total).step, events.last()) {
            (EnsureStep::Discard { id }, EnsureEvent::Passed) => discarded_rows(
                before,
                total,
            ).push(id),
            _ => discarded_rows(before, total),
        }
    }
}

/// Whether the attempt was rolled back.
pub open spec fn was_rolled_back(events: Seq<EnsureEvent>, total: usize) -> bool
    decreases events.len(),
{
    if events.len() == 0 {
        false
    } else {
        let before = events.drop_last();
        was_rolled_back(before, total) || (ensure_run(before, total).step == EnsureStep::RollBack
            && events.last() == EnsureEvent::Passed)
    }
}

/// No row that an attempt inserted is lost: it belongs to a volume that was made, or it was
/// discarded. Where the attempt served every request, all rows are of volumes that were made;
/// where it failed, the volumes made before were rolled back.
pub proof fn no_volume_is_left_behind(events: Seq<EnsureEvent>, total: usize)
    ensures
        ({
            let state = ensure_run(events, total);
            let inserted = inserted_rows(events, total);
            let discarded = discarded_rows(events, total);
            &&& match state.step {
                EnsureStep::Materialize { request, id } => inserted == state.created.push(id)
                    && discarded.len() == 0,
                EnsureStep::Discard { id } => inserted == state.created.push(id)
                    && discarded.len() == 0,
                EnsureStep::RollBack => inserted == state.created + discarded,
                EnsureStep::Failed => inserted == state.created + discarded && (
                state.created.len() > 0 ==> was_rolled_back(events, total)),
                _ => inserted == state.created && discarded.len() == 0,
            }
        }),
    decreases events.len(),
{
    if events.len() > 0 {
        let before = events.drop_last();
        no_volume_is_left_behind(before, total);
        let state = ensure_run(before, total);
        assert(state.created + discarded_rows(before, total).push(0) =~= (state.created
            + discarded_rows(before, total)).push(0));
        if discarded_rows(before, total).len() == 0 {
            assert(state.created + discarded_rows(before, total) =~= state.created);
            if let EnsureStep::Discard { id } = state.step {
                assert(state.created + discarded_rows(before, total).push(id)
                    =~= state.created.push(id));
            }
        }
    } else {
        assert(Seq::<i32>::empty() =~= ensure_run(events, total).created);
    }
}

// ------------------------------------------------------------------------------------------------
// What requests for volumes achieve
// ------------------------------------------------------------------------------------------------

/// A request for a volume gets what it asks for: one that must be new is refused where there is
/// one, one that must be there is refused where there is none, one that is to be there in any case
/// is made where it is not and otherwise has to serve; and what serves is used as it is.
pub proof fn requests_get_what_they_ask_for(create: NamedVolumeCreate, existing: Option<VolumeRow>)
    ensures
        ({
            let outcome = request_outcome(create, existing);
            match create.mode {
                NamedVolumeMode::Create => if existing is None {
                    outcome == Ok::<bool, ErrorView>(true)
                } else {
                    outcome == Err::<bool, ErrorView>(
                        ErrorView::VolumeAlreadyExists(create.name@),
                    )
                },
                NamedVolumeMode::Existing => if existing is None {
                    outcome == Err::<bool, ErrorView>(ErrorView::VolumeNotFound(create.name@))
                } else {
                    outcome == Ok::<bool, ErrorView>(false)
                },
                NamedVolumeMode::EnsureExists => match existing {
                    None => outcome == Ok::<bool, ErrorView>(true),
                    Some(row) => (outcome == Ok::<bool, ErrorView>(false)) == (volume_mismatch(
                        create,
                        row,
                    ) is None) && (outcome is Err ==> outcome == Err::<bool, ErrorView>(
                        volume_mismatch(create, row)->0,
                    )),
                },
            }
        }),
{
}

proof fn lemma_labels(
    name: Seq<char>,
    requested: Seq<(Seq<char>, Seq<char>)>,
    existing: Seq<(Seq<char>, Seq<char>)>,
)
    ensures
        labels_mismatch(name, requested, existing) is None <==> forall|i: int|
            0 <= i < requested.len() ==> last_value(existing, (#[trigger] requested[i]).0) == Some(
                requested[i].1,
            ),
    decreases requested.len(),
{
    if requested.len() > 0 {
        let rest = requested.drop_first();
        lemma_labels(name, rest, existing);
        if labels_mismatch(name, requested, existing) is None {
            assert forall|i: int| 0 <= i < requested.len() implies last_value(
                existing,
                (#[trigger] requested[i]).0,
            ) == Some(requested[i].1) by {
                if i > 0 {
                    assert(rest[i - 1] == requested[i]);
                }
            }
        } else {
            if label_mismatch(name, requested[0], existing) is Some {
                assert(last_value(existing, requested[0].0) != Some(requested[0].1));
            } else {
                let j = choose|j: int|
                    0 <= j < rest.len() && last_value(existing, (#[trigger] rest[j]).0) != Some(
                        rest[j].1,
                    );
                assert(requested[j + 1] == rest[j]);
            }
        }
    }
}

/// A stored volume serves a request exactly where it is of the kind that is asked for, has the
/// quota and the capacity wherever these are asked for, and carries every label that is asked for.
/// What the request leaves open does not count.
pub proof fn volumes_serve_what_they_match(requested: NamedVolumeCreate, existing: VolumeRow)
    requires
        requested.capacity_mib is Some ==> requested.capacity_mib->0 * 1_048_576 <= i64::MAX,
    ensures
        ({
            let labels = pair_views(requested.labels@);
            let stored = match text_of(existing.labels) {
                Some(text) => json_pairs(text),
                None => Some(Seq::empty()),
            };
            volume_mismatch(requested, existing) is None <==> {
                &&& requested.kind == (if existing.kind@ == "disk"@ {
                    VolumeKind::Disk
                } else {
                    VolumeKind::Directory
                })
                &&& requested.quota_mib is Some ==> existing.quota_mib == Some(
                    requested.quota_mib->0 as i32,
                )
                &&& requested.capacity_mib is Some ==> existing.capacity_bytes is Some
                    && existing.capacity_bytes->0 == requested.capacity_mib->0 * 1_048_576
                &&& labels.len() > 0 ==> stored is Some && forall|i: int|
                    0 <= i < labels.len() ==> last_value(stored->0, (#[trigger] labels[i]).0)
                        == Some(labels[i].1)
            }
        }),
{
    let labels = pair_views(requested.labels@);
    let name = requested.name@;
    match text_of(existing.labels) {
        Some(text) => {
            if let Some(stored) = json_pairs(text) {
                lemma_labels(name, labels, stored);
            }
        },
        None => {
            lemma_labels(name, labels, Seq::empty());
        },
    }
}

/// What is wrong is said in the order kind, quota, capacity, labels: an earlier difference is
/// reported whatever the later ones are.
pub proof fn the_first_difference_is_reported(
    a: NamedVolumeCreate,
    b: NamedVolumeCreate,
    existing: VolumeRow,
)
    requires
        a.name@ == b.name@,
        a.kind == b.kind,
        a.kind != stored_kind(existing.kind@),
    ensures
        volume_mismatch(a, existing) is Some,
        volume_mismatch(a, existing) == volume_mismatch(b, existing),
{
}

/// Of several values of a label the last counts.
pub proof fn the_last_label_counts(
    pairs: Seq<(Seq<char>, Seq<char>)>,
    key: Seq<char>,
    value: Seq<char>,
    other: Seq<char>,
)
    ensures
        last_value(Seq::empty(), key) is None,
        last_value(pairs.push((key, value)), key) == Some(value),
        other != key ==> last_value(pairs.push((key, value)), other) == last_value(pairs, other),
{
    assert(pairs.push((key, value)).drop_last() =~= pairs);
}

/// A row stores what was asked for: the name, the kind by its own word, the quota, the capacity in
/// bytes, the labels; a disk is raw with ext4 on it, a directory is neither.
pub proof fn rows_store_what_was_asked_for(row: VolumeRow, create: NamedVolumeCreate)
    requires
        stores(row, create),
        create.capacity_mib is Some ==> create.capacity_mib->0 * 1_048_576 <= i64::MAX,
    ensures
        row.name@ == create.name@,
        create.kind == VolumeKind::Disk ==> row.kind@ == "disk"@ && text_of(row.disk_format)
            == Some("raw"@) && text_of(row.disk_fstype) == Some("ext4"@),
        create.kind == VolumeKind::Directory ==> row.disk_format is None && row.disk_fstype is None,
        row.quota_mib is Some <==> create.quota_mib is Some,
        create.quota_mib is Some ==> row.quota_mib == Some(create.quota_mib->0 as i32),
        row.capacity_bytes is Some <==> create.capacity_mib is Some,
        create.capacity_mib is Some ==> row.capacity_bytes->0 == create.capacity_mib->0
            * 1_048_576,
        row.labels is None <==> create.labels@.len() == 0,
        create.labels@.len() > 0 ==> row.labels->0@ == pairs_json(pair_views(create.labels@)),
        stored_kind(row.kind@) == create.kind,
{
    reveal_strlit("disk");
    reveal_strlit("directory");
    reveal_strlit("dir");
    assert("disk"@.len() == 4);
    assert("directory"@.len() == 9);
    assert("dir"@.len() == 3);
}

/// A stored volume is found below the directory of volumes under its own name. A directory is that
/// directory, with its quota and no less than none; a disk is the file in it, with its format and
/// filesystem.
pub proof fn volumes_are_found(
    row: VolumeRow,
    volumes_dir: Seq<char>,
    name: Seq<char>,
    windows: bool,
)
    ensures
        ({
            let found = resolution(row, volumes_dir, name, windows);
            if row.kind@ == "disk"@ {
                &&& found.kind == VolumeKind::Disk
                &&& found.path == host_joined(
                    host_joined(volumes_dir, name, windows),
                    "disk.raw"@,
                    windows,
                )
                &&& found.format == disk_format_of(
                    match row.disk_format {
                        Some(format) => format@,
                        None => "raw"@,
                    },
                )
                &&& found.fstype == text_of(row.disk_fstype)
                &&& found.quota_mib is None
            } else {
                &&& found.kind == VolumeKind::Directory
                &&& found.path == host_joined(volumes_dir, name, windows)
                &&& found.format is None && found.fstype is None
                &&& found.quota_mib is Some <==> row.quota_mib is Some
                &&& row.quota_mib is Some && row.quota_mib->0 >= 0 ==> found.quota_mib->0
                    == row.quota_mib->0
                &&& row.quota_mib is Some && row.quota_mib->0 < 0 ==> found.quota_mib == Some(0u32)
            }
        }),
{
}

/// A mount is resolved unless its volume is missing, or is a disk on which the mount's options
/// make no sense or whose format nobody knows; and it is said which.
pub proof fn unresolved_mounts_are_named(
    mount: VolumeMount,
    rows: Map<Seq<char>, VolumeRow>,
    objection: Option<Seq<char>>,
    format_error: Seq<char>,
)
    ensures
        ({
            let failed = resolution_failure(mount, rows, objection, format_error);
            match mount {
                VolumeMount::Named { name, .. } => {
                    let row = rows[name@];
                    let format = match row.disk_format {
                        Some(format) => format@,
                        None => "raw"@,
                    };
                    &&& !rows.dom().contains(name@) ==> failed == Some(
                        ErrorView::VolumeNotFound(name@),
                    )
                    &&& rows.dom().contains(name@) && row.kind@ != "disk"@ ==> failed is None
                    &&& rows.dom().contains(name@) && row.kind@ == "disk"@ && objection is Some
                        ==> failed == Some(ErrorView::InvalidConfig(objection->0))
                    &&& rows.dom().contains(name@) && row.kind@ == "disk"@ && objection is None ==> (
                    failed is None <==> format == "raw"@ || format == "qcow2"@ || format
                        == "vmdk"@)
                },
                _ => failed is None,
            }
        }),
{
}

/// The requests are served one after the other, each to its end: its name is checked, it is
/// decided about, and a volume that is to be made has its settings checked, its row inserted and
/// its storage made, and only then counts as made. After the last request all are served.
pub proof fn requests_are_served_in_turn(
    created: Seq<i32>,
    request: usize,
    id: i32,
    total: usize,
)
    requires
        request < total,
    ensures
        ({
            let at = |step: EnsureStep| EnsureView { step, created };
            let after = if request + 1 < total {
                EnsureStep::CheckName { request: (request + 1) as usize }
            } else {
                EnsureStep::Ensured
            };
            &&& ensure_next(at(EnsureStep::CheckName { request }), EnsureEvent::Passed, total) == at(
                EnsureStep::Decide { request },
            )
            &&& ensure_next(
                at(EnsureStep::Decide { request }),
                EnsureEvent::Decided(true),
                total,
            ) == at(EnsureStep::CheckSettings { request })
            &&& ensure_next(
                at(EnsureStep::Decide { request }),
                EnsureEvent::Decided(false),
                total,
            ) == at(after)
            &&& ensure_next(
                at(EnsureStep::CheckSettings { request }),
                EnsureEvent::Passed,
                total,
            ) == at(EnsureStep::Insert { request })
            &&& ensure_next(
                at(EnsureStep::Insert { request }),
                EnsureEvent::Inserted(id),
                total,
            ) == at(EnsureStep::Materialize { request, id })
            &&& ensure_next(
                at(EnsureStep::Materialize { request, id }),
                EnsureEvent::Passed,
                total,
            ) == (EnsureView { step: after, created: created.push(id) })
            &&& ensure_run(Seq::empty(), total).step == (EnsureStep::CheckName { request: 0 })
        }),
        ensure_run(Seq::empty(), 0).step == EnsureStep::Ensured,
        ensure_run(Seq::empty(), total).created.len() == 0,
{
}

/// A request that cannot be served undoes the attempt: a volume whose storage could not be made is
/// discarded, then every volume that was made goes, and only then the attempt has failed. Where
/// none was made there is nothing to undo.
pub proof fn failed_requests_undo_the_attempt(
    created: Seq<i32>,
    request: usize,
    id: i32,
    total: usize,
)
    ensures
        ({
            let at = |step: EnsureStep| EnsureView { step, created };
            let undo = if created.len() > 0 {
                at(EnsureStep::RollBack)
            } else {
                at(EnsureStep::Failed)
            };
            let failed = |step: EnsureStep| ensure_next(at(step), EnsureEvent::Failed, total);
            &&& failed(EnsureStep::CheckName { request }) == undo
            &&& failed(EnsureStep::Decide { request }) == undo
            &&& failed(EnsureStep::CheckSettings { request }) == undo
            &&& failed(EnsureStep::Insert { request }) == undo
            &&& failed(EnsureStep::Materialize { request, id }) == at(EnsureStep::Discard { id })
            &&& ensure_next(at(EnsureStep::Discard { id }), EnsureEvent::Passed, total) == undo
            &&& ensure_next(at(EnsureStep::RollBack), EnsureEvent::Passed, total) == at(
                EnsureStep::Failed,
            )
        }),
{
}

/// A volume that does not serve is refused for what it is and what was asked for, in this order:
/// its kind, its quota, its capacity, its labels.
pub proof fn differences_are_spelled_out(requested: NamedVolumeCreate, existing: VolumeRow)
    ensures
        ({
            let named = "named volume "@ + quoted_text(requested.name@);
            let kind = stored_kind(existing.kind@);
            let same_quota = requested.quota_mib is None || existing.quota_mib == Some(
                requested.quota_mib->0 as i32,
            );
            let refusal = volume_mismatch(requested, existing);
            &&& requested.kind != kind ==> refusal == Some(
                ErrorView::InvalidConfig(
                    named + " already exists as "@ + kind.text()
                        + ", but this sandbox requested "@ + requested.kind.text(),
                ),
            )
            &&& requested.kind == kind && !same_quota && existing.quota_mib is Some ==> refusal
                == Some(
                ErrorView::InvalidConfig(
                    named + " already exists with quota "@ + ("Some("@ + signed_decimal(
                        existing.quota_mib->0 as int,
                    ) + ")"@) + " MiB, but this sandbox requested "@ + decimal(
                        requested.quota_mib->0 as nat,
                    ) + " MiB"@,
                ),
            )
            &&& requested.kind == kind && !same_quota && existing.quota_mib is None ==> refusal
                == Some(
                ErrorView::InvalidConfig(
                    named + " already exists with quota "@ + "None"@
                        + " MiB, but this sandbox requested "@ + decimal(
                        requested.quota_mib->0 as nat,
                    ) + " MiB"@,
                ),
            )
            &&& requested.kind == kind && same_quota && requested.capacity_mib is Some
                && requested.capacity_mib->0 * 1_048_576 <= i64::MAX && existing.capacity_bytes
                is Some && existing.capacity_bytes->0 != requested.capacity_mib->0 * 1_048_576
                ==> refusal == Some(
                ErrorView::InvalidConfig(
                    named + " already exists with capacity "@ + ("Some("@ + signed_decimal(
                        existing.capacity_bytes->0 as int,
                    ) + ")"@) + " bytes, but this sandbox requested "@ + signed_decimal(
                        requested.capacity_mib->0 * 1_048_576,
                    ) + " bytes"@,
                ),
            )
            &&& requested.kind == kind && same_quota && requested.capacity_mib is Some
                && existing.capacity_bytes is None ==> refusal == Some(
                ErrorView::InvalidConfig(
                    named + " already exists with capacity "@ + "None"@
                        + " bytes, but this sandbox requested "@ + signed_decimal(
                        requested.capacity_mib->0 * 1_048_576,
                    ) + " bytes"@,
                ),
            )
        }),
{
}

/// A label that a volume lacks is named; one that it has with another value is named with both;
/// one that agrees is no obstacle, and what comes first is reported.
pub proof fn labels_are_spelled_out(
    name: Seq<char>,
    label: (Seq<char>, Seq<char>),
    more: Seq<(Seq<char>, Seq<char>)>,
    existing: Seq<(Seq<char>, Seq<char>)>,
)
    ensures
        ({
            let named = "named volume "@ + quoted_text(name);
            let stored = last_value(existing, label.0);
            let all = seq![label] + more;
            &&& labels_mismatch(name, Seq::empty(), existing) is None
            &&& stored is None ==> labels_mismatch(name, all, existing) == Some(
                ErrorView::InvalidConfig(
                    named + " already exists without requested label "@ + quoted_text(label.0),
                ),
            )
            &&& stored is Some && stored->0 != label.1 ==> labels_mismatch(name, all, existing)
                == Some(
                ErrorView::InvalidConfig(
                    named + " already exists with label "@ + quoted_text(label.0) + "="@
                        + quoted_text(stored->0) + ", but this sandbox requested "@ + quoted_text(
                        label.1,
                    ),
                ),
            )
            &&& stored == Some(label.1) ==> labels_mismatch(name, all, existing)
                == labels_mismatch(name, more, existing)
        }),
{
    assert((seq![label] + more).drop_first() =~= more);
}

/// A resolved volume is seen as it is.
pub proof fn resolved_volumes_are_seen_as_they_are(volume: ResolvedNamedVolume, ensured: EnsureVolumes)
    ensures
        volume@.kind == volume.kind,
        volume@.path == volume.path@,
        volume@.format == volume.format,
        volume@.quota_mib == volume.quota_mib,
        volume.fstype is Some ==> volume@.fstype == Some(volume.fstype->0@),
        volume.fstype is None ==> volume@.fstype is None,
        ensured@.step == ensured.step,
        ensured@.created == ensured.created@,
{
}

} // verus!
