//! Records that a creation writes.

use vstd::prelude::*;

use crate::text::same;
use crate::types::{SandboxConfig, SandboxResources, SandboxStatus};

verus! {

/// A new record of a sandbox.
pub struct SandboxRecord {
    pub name: String,
    pub status: SandboxStatus,
    /// Whether the sandbox goes when it stops.
    pub ephemeral: bool,
    pub labels: Vec<(String, String)>,
}

/// The labels as text.
pub open spec fn label_views(labels: Seq<(String, String)>) -> Seq<(Seq<char>, Seq<char>)> {
    labels.map_values(|label: (String, String)| (label.0@, label.1@))
}

/// The record of a configuration with the given status.
pub fn insert_sandbox_record_with_status(config: &SandboxConfig, status: SandboxStatus) -> (r:
    SandboxRecord)
    ensures
        r.name@ == config.spec.name@,
        r.status == status,
        r.ephemeral == config.spec.lifecycle.ephemeral,
        label_views(r.labels@) == label_views(config.spec.labels@),
{
    let labels = &config.spec.labels;
    let mut copies: Vec<(String, String)> = Vec::new();
    let mut i: usize = 0;
    while i < labels.len()
        invariant
            i <= labels@.len(),
            label_views(copies@) == label_views(labels@).take(i as int),
        decreases labels@.len() - i,
    {
        let ghost before = copies@;
        copies.push((labels[i].0.clone(), labels[i].1.clone()));
        assert(label_views(copies@) =~= label_views(before).push(label_views(labels@)[i as int]));
        i = i + 1;
        assert(label_views(copies@) =~= label_views(labels@).take(i as int));
    }
    assert(label_views(labels@).take(i as int) =~= label_views(labels@));
    SandboxRecord {
        name: config.spec.name.clone(),
        status,
        ephemeral: config.spec.lifecycle.ephemeral,
        labels: copies,
    }
}

/// The record of a sandbox that boots: nobody can connect to it before it is ready.
pub fn insert_starting_sandbox_record(config: &SandboxConfig) -> (r: SandboxRecord)
    ensures
        r.name@ == config.spec.name@,
        r.status == SandboxStatus::Starting,
        r.ephemeral == config.spec.lifecycle.ephemeral,
        label_views(r.labels@) == label_views(config.spec.labels@),
{
    insert_sandbox_record_with_status(config, SandboxStatus::Starting)
}

// ------------------------------------------------------------------------------------------------
// Manifests
// ------------------------------------------------------------------------------------------------

/// How the layers of a pinned image are mounted.
pub const PIN_MODE: &'static str = "erofs";

/// The filesystem that is layered over a pinned image.
pub const PIN_UPPER_FSTYPE: &'static str = "ext4";

/// A manifest that the catalog knows.
pub struct ManifestRow {
    pub id: i32,
    pub digest: String,
}

/// The manifest that a sandbox was made from, where the catalog knows it.
#[derive(Clone, Copy, Debug, PartialEq, Eq, Structural)]
pub struct ManifestPin {
    pub sandbox_id: i32,
    pub manifest_id: Option<i32>,
}

/// The first manifest with a digest.
pub open spec fn manifest_of(manifests: Seq<ManifestRow>, digest: Seq<char>) -> Option<i32>
    decreases manifests.len(),
{
    if manifests.len() == 0 {
        None
    } else if manifests[0].digest@ == digest {
        Some(manifests[0].id)
    } else {
        manifest_of(manifests.drop_first(), digest)
    }
}

/// The first manifest with a digest.
pub fn find_manifest(manifests: &Vec<ManifestRow>, digest: &str) -> (r: Option<i32>)
    ensures
        r == manifest_of(manifests@, digest@),
{
    let mut i: usize = 0;
    assert(manifests@.skip(0) =~= manifests@);
    while i < manifests.len()
        invariant
            i <= manifests@.len(),
            manifest_of(manifests@, digest@) == manifest_of(manifests@.skip(i as int), digest@),
        decreases manifests@.len() - i,
    {
        assert(manifests@.skip(i as int)[0] == manifests@[i as int]);
        assert(manifests@.skip(i as int).drop_first() =~= manifests@.skip(i + 1));
        if same(manifests[i].digest.as_str(), digest) {
            return Some(manifests[i].id);
        }
        i = i + 1;
    }
    None
}

/// The pins of other sandboxes.
pub open spec fn other_pins(pins: Seq<ManifestPin>, sandbox_id: i32) -> Seq<ManifestPin> {
    pins.filter(|pin: ManifestPin| pin.sandbox_id != sandbox_id)
}

/// The pins after a sandbox was pinned: its earlier pins are gone.
pub open spec fn repinned(
    pins: Seq<ManifestPin>,
    sandbox_id: i32,
    manifest_id: Option<i32>,
) -> Seq<ManifestPin> {
    other_pins(pins, sandbox_id).push(ManifestPin { sandbox_id, manifest_id })
}

/// Pins a sandbox to the manifest that it was made from.
pub fn replace_oci_manifest_pin(
    pins: &Vec<ManifestPin>,
    manifests: &Vec<ManifestRow>,
    sandbox_id: i32,
    manifest_digest: &str,
) -> (r: Vec<ManifestPin>)
    ensures
        r@ == repinned(pins@, sandbox_id, manifest_of(manifests@, manifest_digest@)),
{
    let mut out: Vec<ManifestPin> = Vec::new();
    let ghost others = |pin: ManifestPin| pin.sandbox_id != sandbox_id;
    let mut i: usize = 0;
    proof {
        reveal(Seq::filter);
    }
    while i < pins.len()
        invariant
            i <= pins@.len(),
            others == (|pin: ManifestPin| pin.sandbox_id != sandbox_id),
            out@ == pins@.take(i as int).filter(others),
        decreases pins@.len() - i,
    {
        proof {
            reveal(Seq::filter);
            assert(pins@.take(i + 1).drop_last() =~= pins@.take(i as int));
        }
        if pins[i].sandbox_id != sandbox_id {
            out.push(pins[i]);
        }
        i = i + 1;
    }
    assert(pins@.take(i as int) =~= pins@);
    let manifest_id = find_manifest(manifests, manifest_digest);
    out.push(ManifestPin { sandbox_id, manifest_id });
    out
}

/// A sandbox has exactly one pin once it was pinned, and other sandboxes keep theirs.
pub proof fn pins_are_unique(pins: Seq<ManifestPin>, sandbox_id: i32, manifest_id: Option<i32>)
    ensures
        ({
            let after = repinned(pins, sandbox_id, manifest_id);
            &&& after.filter(|pin: ManifestPin| pin.sandbox_id == sandbox_id) == seq![
                ManifestPin { sandbox_id, manifest_id },
            ]
            &&& other_pins(after, sandbox_id) == other_pins(pins, sandbox_id)
        }),
{
    let after = repinned(pins, sandbox_id, manifest_id);
    let kept = other_pins(pins, sandbox_id);
    let own = |pin: ManifestPin| pin.sandbox_id == sandbox_id;
    let others = |pin: ManifestPin| pin.sandbox_id != sandbox_id;
    lemma_kept_are_others(pins, sandbox_id);
    lemma_filter_by_match(kept, sandbox_id);
    assert(after.drop_last() =~= kept);
    reveal(Seq::filter);
    assert(after.filter(own) =~= seq![ManifestPin { sandbox_id, manifest_id }]);
    assert(after.filter(others) =~= kept);
}

proof fn lemma_kept_are_others(pins: Seq<ManifestPin>, sandbox_id: i32)
    ensures
        forall|i: int|
            0 <= i < other_pins(pins, sandbox_id).len() ==> (#[trigger] other_pins(
                pins,
                sandbox_id,
            )[i]).sandbox_id != sandbox_id,
    decreases pins.len(),
{
    reveal(Seq::filter);
    if pins.len() > 0 {
        lemma_kept_are_others(pins.drop_last(), sandbox_id);
    }
}

proof fn lemma_filter_by_match(kept: Seq<ManifestPin>, sandbox_id: i32)
    requires
        forall|i: int| 0 <= i < kept.len() ==> (#[trigger] kept[i]).sandbox_id != sandbox_id,
    ensures
        kept.filter(|pin: ManifestPin| pin.sandbox_id == sandbox_id) == Seq::<ManifestPin>::empty(),
        kept.filter(|pin: ManifestPin| pin.sandbox_id != sandbox_id) == kept,
    decreases kept.len(),
{
    reveal(Seq::filter);
    if kept.len() > 0 {
        lemma_filter_by_match(kept.drop_last(), sandbox_id);
        assert(kept.last() == kept[kept.len() - 1]);
        assert(kept.drop_last().push(kept.last()) =~= kept);
    }
}

// ------------------------------------------------------------------------------------------------
// Restores
// ------------------------------------------------------------------------------------------------

/// What the record of a restored sandbox says of its next start.
#[derive(Clone, Copy, Debug, PartialEq, Eq, Structural)]
pub struct DesiredState {
    pub cpus: u8,
    pub memory_mib: u32,
    /// Whether the restore has not completed.
    pub restoring: bool,
}

/// The record once the restore has completed: a size that still is the one the machine was
/// constructed with becomes the restored one.
pub open spec fn restore_completed(
    current: DesiredState,
    construction: SandboxResources,
    restored: SandboxResources,
) -> DesiredState {
    DesiredState {
        cpus: if current.cpus == construction.cpus {
            restored.cpus
        } else {
            current.cpus
        },
        memory_mib: if current.memory_mib == construction.memory_mib {
            restored.memory_mib
        } else {
            current.memory_mib
        },
        restoring: false,
    }
}

/// Records that a restore has completed.
pub fn complete_sandbox_restore(
    current: DesiredState,
    construction: SandboxResources,
    restored: SandboxResources,
) -> (r: DesiredState)
    ensures
        r == restore_completed(current, construction, restored),
{
    let cpus: u8 = if current.cpus == construction.cpus {
        restored.cpus
    } else {
        current.cpus
    };
    let memory_mib: u32 = if current.memory_mib == construction.memory_mib {
        restored.memory_mib
    } else {
        current.memory_mib
    };
    DesiredState { cpus, memory_mib, restoring: false }
}

/// A size that somebody asked for in the meantime survives the completion of a restore.
pub proof fn edits_survive_a_restore(
    current: DesiredState,
    construction: SandboxResources,
    restored: SandboxResources,
)
    ensures
        ({
            let after = restore_completed(current, construction, restored);
            &&& !after.restoring
            &&& current.cpus != construction.cpus ==> after.cpus == current.cpus
            &&& current.memory_mib != construction.memory_mib ==> after.memory_mib
                == current.memory_mib
            &&& current.cpus == construction.cpus ==> after.cpus == restored.cpus
            &&& current.memory_mib == construction.memory_mib ==> after.memory_mib
                == restored.memory_mib
        }),
{
}

/// The manifest of a digest is the first that the catalog knows with exactly that digest, and there
/// is none where it knows none.
pub proof fn manifests_are_found_by_digest(manifests: Seq<ManifestRow>, digest: Seq<char>)
    ensures
        manifest_of(manifests, digest) is None <==> forall|k: int|
            0 <= k < manifests.len() ==> (#[trigger] manifests[k]).digest@ != digest,
        manifest_of(manifests, digest) matches Some(id) ==> exists|k: int|
            0 <= k < manifests.len() && (#[trigger] manifests[k]).digest@ == digest
                && manifests[k].id == id && (forall|m: int|
                0 <= m < k ==> (#[trigger] manifests[m]).digest@ != digest),
    decreases manifests.len(),
{
    if manifests.len() > 0 && manifests[0].digest@ != digest {
        let rest = manifests.drop_first();
        manifests_are_found_by_digest(rest, digest);
        if manifest_of(manifests, digest) is None {
            assert forall|k: int| 0 <= k < manifests.len() implies (
            #[trigger] manifests[k]).digest@ != digest by {
                if k > 0 {
                    assert(rest[k - 1] == manifests[k]);
                }
            }
        } else {
            let k = choose|k: int|
                0 <= k < rest.len() && (#[trigger] rest[k]).digest@ == digest && rest[k].id
                    == manifest_of(manifests, digest)->0 && (forall|m: int|
                    0 <= m < k ==> (#[trigger] rest[m]).digest@ != digest);
            assert(manifests[k + 1] == rest[k]);
            assert forall|m: int| 0 <= m < k + 1 implies (#[trigger] manifests[m]).digest@
                != digest by {
                if m > 0 {
                    assert(rest[m - 1] == manifests[m]);
                }
            }
        }
    }
}

/// Pinning leaves the pins of other sandboxes as they are and in their order, and no other pin of
/// the sandbox than the new one, which comes last.
pub proof fn pins_of_others_stay(
    pins: Seq<ManifestPin>,
    pin: ManifestPin,
    sandbox_id: i32,
    manifest_id: Option<i32>,
)
    ensures
        repinned(pins, sandbox_id, manifest_id).last() == (ManifestPin { sandbox_id, manifest_id }),
        repinned(Seq::empty(), sandbox_id, manifest_id) == seq![
            ManifestPin { sandbox_id, manifest_id },
        ],
        pin.sandbox_id != sandbox_id ==> repinned(pins.push(pin), sandbox_id, manifest_id)
            == repinned(pins, sandbox_id, manifest_id).drop_last().push(pin).push(
            ManifestPin { sandbox_id, manifest_id },
        ),
        pin.sandbox_id == sandbox_id ==> repinned(pins.push(pin), sandbox_id, manifest_id)
            == repinned(pins, sandbox_id, manifest_id),
{
    reveal(Seq::filter);
    let last = ManifestPin { sandbox_id, manifest_id };
    assert(pins.push(pin).drop_last() =~= pins);
    assert(repinned(pins, sandbox_id, manifest_id).drop_last() =~= other_pins(pins, sandbox_id));
    assert(other_pins(Seq::empty(), sandbox_id) =~= Seq::empty());
    assert(repinned(Seq::empty(), sandbox_id, manifest_id) =~= seq![last]);
}

/// A pinned image is mounted as layers of `erofs` with `ext4` over them.
pub proof fn pins_are_layered()
    ensures
        PIN_MODE@ == "erofs"@,
        PIN_UPPER_FSTYPE@ == "ext4"@,
{
}

} // verus!
