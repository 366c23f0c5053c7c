//! OCI images: which one a sandbox boots, and how it is fetched.

use vstd::prelude::*;

use crate::error::{ErrorView, MicrosandboxError, MicrosandboxResult, failure};
use crate::launch::copy_text;
use crate::mounts::text_of;
use crate::text::views;
use crate::types::{PullPolicy, RegistryAuth, RootDisk, SandboxConfig};

verus! {

/// What an image is made into.
#[derive(Clone, Copy, Debug, PartialEq, Eq, Structural)]
pub enum RootfsMaterialization {
    /// Layers, stitched together at boot.
    Layered,
    /// One disk.
    Flat,
}

/// What an image is made into for a root disk.
pub open spec fn materialization_of(root_disk: Option<RootDisk>) -> RootfsMaterialization {
    if root_disk matches Some(RootDisk::Flat { .. }) {
        RootfsMaterialization::Flat
    } else {
        RootfsMaterialization::Layered
    }
}

/// What an image is made into for a root disk.
pub fn image_materialization(root_disk: &Option<RootDisk>) -> (r: RootfsMaterialization)
    ensures
        r == materialization_of(*root_disk),
{
    match root_disk {
        Some(RootDisk::Flat { .. }) => RootfsMaterialization::Flat,
        _ => RootfsMaterialization::Layered,
    }
}

/// The manifest that a restored sandbox depends on: its disks hold changes against exactly that
/// image. A fresh sandbox depends on none.
pub open spec fn expected_manifest(config: SandboxConfig) -> Option<Seq<char>> {
    if config.snapshot_upper_source is Some || config.checkpoint_restore is Some
        || config.snapshot_upper_layers@.len() > 0 {
        text_of(config.manifest_digest)
    } else {
        None
    }
}

/// The manifest that a restored sandbox depends on.
pub fn expected_snapshot_manifest(config: &SandboxConfig) -> (r: Option<String>)
    ensures
        text_of(r) == expected_manifest(*config),
{
    if config.snapshot_upper_source.is_some() || config.checkpoint_restore.is_some()
        || config.snapshot_upper_layers.len() > 0 {
        copy_text(&config.manifest_digest)
    } else {
        None
    }
}

/// The refusal of an image that is not the one a restored sandbox depends on.
pub open spec fn manifest_refusal(expected: Option<Seq<char>>, resolved: Seq<char>) -> Option<
    ErrorView,
> {
    match expected {
        Some(digest) => if digest == resolved {
            None
        } else {
            Some(
                ErrorView::SnapshotIntegrity(
                    "snapshot image digest mismatch: manifest pinned "@ + digest + ", resolved "@
                        + resolved,
                ),
            )
        },
        None => None,
    }
}

/// Refuses an image that is not the one a restored sandbox depends on.
pub fn check_snapshot_manifest(expected: &Option<String>, resolved: &str) -> (r:
    MicrosandboxResult<()>)
    ensures
        failure(r) == manifest_refusal(text_of(*expected), resolved@),
{
    if let Some(digest) = expected {
        if !crate::text::same(digest.as_str(), resolved) {
            let mut message = "snapshot image digest mismatch: manifest pinned ".to_owned();
            message.append(digest.as_str());
            message.append(", resolved ");
            message.append(resolved);
            return Err(MicrosandboxError::SnapshotIntegrity(message));
        }
    }
    Ok(())
}

/// An image reference that names its manifest by digest.
pub open spec fn pinned_reference(
    registry: Seq<char>,
    repository: Seq<char>,
    digest: Seq<char>,
) -> Seq<char> {
    registry + "/"@ + repository + "@"@ + digest
}

/// An image reference that names its manifest by digest, so that a moved tag cannot change it.
pub fn digest_pinned_reference(registry: &str, repository: &str, pinned_digest: &str) -> (r: String)
    ensures
        r@ == pinned_reference(registry@, repository@, pinned_digest@),
{
    let mut out = registry.to_owned();
    out.append("/");
    out.append(repository);
    out.append("@");
    out.append(pinned_digest);
    out
}

/// The failure of a digest that cannot be read.
pub fn invalid_digest_error(digest: &str, cause: &str) -> (r: MicrosandboxError)
    ensures
        r@ == ErrorView::SnapshotIntegrity(
            "invalid snapshot image digest "@ + digest@ + ": "@ + cause@,
        ),
{
    let mut message = "invalid snapshot image digest ".to_owned();
    message.append(digest);
    message.append(": ");
    message.append(cause);
    MicrosandboxError::SnapshotIntegrity(message)
}

/// The failure of an image reference that cannot be read.
pub fn invalid_reference_error(pinned: bool, cause: &str) -> (r: MicrosandboxError)
    ensures
        r@ == ErrorView::InvalidConfig(
            (if pinned {
                "invalid pinned reference: "@
            } else {
                "invalid image reference: "@
            }) + cause@,
        ),
{
    let mut message = if pinned {
        "invalid pinned reference: ".to_owned()
    } else {
        "invalid image reference: ".to_owned()
    };
    message.append(cause);
    MicrosandboxError::InvalidConfig(message)
}

/// The failure of a restore whose image is not cached and may not be fetched.
pub fn uncached_error(digest: &str) -> (r: MicrosandboxError)
    ensures
        r@ == ErrorView::SnapshotIntegrity(
            "snapshot base image "@ + digest@
                + " is not cached locally and pull policy is `never`; this snapshot cannot be restored losslessly"@,
        ),
{
    let mut message = "snapshot base image ".to_owned();
    message.append(digest);
    message.append(
        " is not cached locally and pull policy is `never`; this snapshot cannot be restored losslessly",
    );
    MicrosandboxError::SnapshotIntegrity(message)
}

/// The failure of a restore whose image cannot be fetched any more.
pub fn unavailable_error(digest: &str, cause: &str) -> (r: MicrosandboxError)
    ensures
        r@ == ErrorView::SnapshotIntegrity(
            "snapshot base image "@ + digest@
                + " no longer available in registry (it may have been garbage-collected upstream); this snapshot cannot be restored losslessly: "@
                + cause@,
        ),
{
    let mut message = "snapshot base image ".to_owned();
    message.append(digest);
    message.append(
        " no longer available in registry (it may have been garbage-collected upstream); this snapshot cannot be restored losslessly: ",
    );
    message.append(cause);
    MicrosandboxError::SnapshotIntegrity(message)
}

/// Where the image of a sandbox comes from.
#[derive(Clone, Copy, Debug, PartialEq, Eq, Structural)]
pub enum ImageStep {
    /// Fetch the image by its tag.
    FetchTagged,
    /// Read the digest.
    ReadDigest,
    /// Pin the reference to the digest.
    PinReference,
    /// Look the manifest up in the cache.
    LookUp,
    /// Fetch only the image's defaults: the snapshot has the whole disk.
    FetchDefaults,
    /// Fetch the image by its pinned reference, never by its tag.
    FetchPinned,
    /// It came from the cache, under the pinned reference.
    Cached,
    /// It was fetched, under the pinned reference.
    Fetched,
    /// It was had by its tag.
    Tagged,
    /// It is not cached and may not be fetched.
    Refused,
    /// It could not be had.
    Failed,
    /// The registry does not have it any more.
    Unavailable,
}

/// What happened on the way.
#[derive(Clone, Copy, Debug, PartialEq, Eq, Structural)]
pub enum ImageEvent {
    Done,
    Failed,
    /// Whether the cache has the manifest.
    Found(bool),
}

/// The step after an event. An event that the step does not expect changes nothing.
pub open spec fn image_next(
    step: ImageStep,
    event: ImageEvent,
    policy: PullPolicy,
    materialization: RootfsMaterialization,
) -> ImageStep {
    match (step, event) {
        (ImageStep::FetchTagged, ImageEvent::Done) => ImageStep::Tagged,
        (ImageStep::FetchTagged, ImageEvent::Failed) => ImageStep::Failed,
        (ImageStep::ReadDigest, ImageEvent::Done) => {
            ImageStep::PinReference
        },
        (ImageStep::ReadDigest, ImageEvent::Failed) => ImageStep::Failed,
        (ImageStep::PinReference, ImageEvent::Done) => ImageStep::LookUp,
        (ImageStep::PinReference, ImageEvent::Failed) => ImageStep::Failed,
        (ImageStep::LookUp, ImageEvent::Failed) => ImageStep::Failed,
        (ImageStep::LookUp, ImageEvent::Found(true)) => ImageStep::Cached,
        (ImageStep::LookUp, ImageEvent::Found(false)) => if policy
            == PullPolicy::Never {
            ImageStep::Refused
        } else if materialization == RootfsMaterialization::Flat {
            ImageStep::FetchDefaults
        } else {
            ImageStep::FetchPinned
        },
        (ImageStep::FetchDefaults, ImageEvent::Done) => ImageStep::Fetched,
        (ImageStep::FetchDefaults, ImageEvent::Failed) => ImageStep::Failed,
        (ImageStep::FetchPinned, ImageEvent::Done) => ImageStep::Fetched,
        (ImageStep::FetchPinned, ImageEvent::Failed) => {
            ImageStep::Unavailable
        },
        _ => step,
    }
}

impl ImageStep {
    /// Takes an event into account.
    pub fn advance(
        self,
        event: ImageEvent,
        policy: PullPolicy,
        materialization: RootfsMaterialization,
    ) -> (r: ImageStep)
        ensures
            r == image_next(self, event, policy, materialization),
    {
        match (self, event) {
            (ImageStep::FetchTagged, ImageEvent::Done) => ImageStep::Tagged,
            (ImageStep::FetchTagged, ImageEvent::Failed) => ImageStep::Failed,
            (ImageStep::ReadDigest, ImageEvent::Done) => {
                ImageStep::PinReference
            },
            (ImageStep::ReadDigest, ImageEvent::Failed) => {
                ImageStep::Failed
            },
            (ImageStep::PinReference, ImageEvent::Done) => {
                ImageStep::LookUp
            },
            (ImageStep::PinReference, ImageEvent::Failed) => {
                ImageStep::Failed
            },
            (ImageStep::LookUp, ImageEvent::Failed) => ImageStep::Failed,
            (ImageStep::LookUp, ImageEvent::Found(true)) => {
                ImageStep::Cached
            },
            (ImageStep::LookUp, ImageEvent::Found(false)) => {
                if policy == PullPolicy::Never {
                    ImageStep::Refused
                } else if materialization == RootfsMaterialization::Flat {
                    ImageStep::FetchDefaults
                } else {
                    ImageStep::FetchPinned
                }
            },
            (ImageStep::FetchDefaults, ImageEvent::Done) => {
                ImageStep::Fetched
            },
            (ImageStep::FetchDefaults, ImageEvent::Failed) => {
                ImageStep::Failed
            },
            (ImageStep::FetchPinned, ImageEvent::Done) => {
                ImageStep::Fetched
            },
            (ImageStep::FetchPinned, ImageEvent::Failed) => {
                ImageStep::Unavailable
            },
            _ => self,
        }
    }
}

/// A fresh sandbox takes its image by tag, a restored one by the digest it depends on.
pub open spec fn image_start(expected: Option<Seq<char>>) -> ImageStep {
    if expected is Some {
        ImageStep::ReadDigest
    } else {
        ImageStep::FetchTagged
    }
}

/// The first step towards the image of a sandbox, given the manifest that it depends on.
pub fn resolve_oci_image_for_create(expected: &Option<String>) -> (r: ImageStep)
    ensures
        r == image_start(text_of(*expected)),
{
    match expected {
        Some(_) => ImageStep::ReadDigest,
        None => ImageStep::FetchTagged,
    }
}

/// The reference under which the image's metadata is kept: a restored sandbox's names its
/// manifest, even where the cache had it under a tag.
pub fn metadata_reference(reference: &str, pinned: Option<String>) -> (r: String)
    ensures
        r@ == match pinned {
            Some(pinned) => pinned@,
            None => reference@,
        },
{
    match pinned {
        Some(pinned) => pinned,
        None => reference.to_owned(),
    }
}

/// The references under which the cache is asked for the manifest of a restored sandbox, in order:
/// the one that names it, then the one that the sandbox was made with.
pub fn snapshot_references(pinned: String, reference: &str) -> (r: Vec<String>)
    ensures
        views(r@) == seq![pinned@, reference@],
{
    let r = vec![pinned, reference.to_owned()];
    assert(views(r@) =~= seq![pinned@, reference@]);
    r
}

/// The reference by which a step fetches: a restored sandbox's image only by the one that names
/// its manifest.
pub fn fetch_reference(step: ImageStep, pinned: &str, reference: &str) -> (r: Option<String>)
    ensures
        text_of(r) == match step {
            ImageStep::FetchTagged => Some(reference@),
            ImageStep::FetchDefaults => Some(pinned@),
            ImageStep::FetchPinned => Some(pinned@),
            _ => None,
        },
{
    match step {
        ImageStep::FetchTagged => Some(reference.to_owned()),
        ImageStep::FetchDefaults => Some(pinned.to_owned()),
        ImageStep::FetchPinned => Some(pinned.to_owned()),
        _ => None,
    }
}

/// The step that a list of events leads to.
pub open spec fn image_run(
    expected: Option<Seq<char>>,
    events: Seq<ImageEvent>,
    policy: PullPolicy,
    materialization: RootfsMaterialization,
) -> ImageStep
    decreases events.len(),
{
    if events.len() == 0 {
        image_start(expected)
    } else {
        image_next(
            image_run(expected, events.drop_last(), policy, materialization),
            events.last(),
            policy,
            materialization,
        )
    }
}

/// What holds of every step towards an image.
spec fn image_facts(
    expected: Option<Seq<char>>,
    events: Seq<ImageEvent>,
    policy: PullPolicy,
    materialization: RootfsMaterialization,
) -> bool {
    let step = image_run(expected, events, policy, materialization);
    &&& expected is Some ==> step != ImageStep::FetchTagged && step != ImageStep::Tagged
    &&& expected is None ==> step == ImageStep::FetchTagged || step == ImageStep::Tagged || step
        == ImageStep::Failed
    &&& step == ImageStep::FetchDefaults ==> materialization == RootfsMaterialization::Flat
    &&& step == ImageStep::FetchPinned ==> materialization == RootfsMaterialization::Layered
    &&& step == ImageStep::FetchDefaults || step == ImageStep::FetchPinned || step
        == ImageStep::Fetched || step == ImageStep::Unavailable ==> policy != PullPolicy::Never
        && events.contains(ImageEvent::Found(false))
}

proof fn lemma_image_facts(
    expected: Option<Seq<char>>,
    events: Seq<ImageEvent>,
    policy: PullPolicy,
    materialization: RootfsMaterialization,
)
    ensures
        image_facts(expected, events, policy, materialization),
    decreases events.len(),
{
    if events.len() > 0 {
        let before = events.drop_last();
        lemma_image_facts(expected, before, policy, materialization);
        assert(events[events.len() - 1] == events.last());
        assert(events.contains(events.last()));
        assert forall|e: ImageEvent| before.contains(e) implies events.contains(e) by {
            let i = choose|i: int| 0 <= i < before.len() && before[i] == e;
            assert(events[i] == e);
        }
    }
}

/// A moved tag never changes what a restored sandbox boots: its image is never fetched by tag.
pub proof fn restores_never_follow_a_tag(
    digest: Seq<char>,
    events: Seq<ImageEvent>,
    policy: PullPolicy,
    materialization: RootfsMaterialization,
)
    ensures
        image_run(Some(digest), events, policy, materialization) != ImageStep::FetchTagged,
        image_run(Some(digest), events, policy, materialization) != ImageStep::Tagged,
{
    lemma_image_facts(Some(digest), events, policy, materialization);
}

/// The image of a restored sandbox is fetched only where the policy allows it and the cache does
/// not have it. For a flat disk only the image's defaults are.
pub proof fn the_cache_comes_first(
    digest: Seq<char>,
    events: Seq<ImageEvent>,
    policy: PullPolicy,
    materialization: RootfsMaterialization,
)
    ensures
        ({
            let step = image_run(Some(digest), events, policy, materialization);
            &&& step == ImageStep::FetchDefaults || step == ImageStep::FetchPinned || step
                == ImageStep::Fetched ==> policy != PullPolicy::Never && events.contains(
                ImageEvent::Found(false),
            )
            &&& step == ImageStep::FetchDefaults ==> materialization == RootfsMaterialization::Flat
            &&& step == ImageStep::FetchPinned ==> materialization
                == RootfsMaterialization::Layered
        }),
{
    lemma_image_facts(Some(digest), events, policy, materialization);
}

// ------------------------------------------------------------------------------------------------
// Fetching
// ------------------------------------------------------------------------------------------------

/// What comes next in fetching an image.
#[derive(Clone, Copy, Debug, PartialEq, Eq, Structural)]
pub enum PullStep {
    /// Read the reference.
    ReadReference,
    /// Look the image up in the cache.
    LookUp,
    /// Report the image in the cache.
    ReportCached,
    /// Open the registry.
    OpenRegistry,
    /// Fetch the image and report progress.
    FetchReporting,
    /// Fetch the image.
    Fetch,
    /// The image is there.
    Pulled,
    /// It is not.
    Failed,
}

/// The step after an event, given whether anyone listens to progress.
pub open spec fn pull_next(step: PullStep, event: ImageEvent, listening: bool) -> PullStep {
    match (step, event) {
        (PullStep::Pulled, _) => step,
        (_, ImageEvent::Failed) => PullStep::Failed,
        (PullStep::ReadReference, ImageEvent::Done) => PullStep::LookUp,
        (PullStep::LookUp, ImageEvent::Found(true)) => PullStep::ReportCached,
        (PullStep::LookUp, ImageEvent::Found(false)) => PullStep::OpenRegistry,
        (PullStep::ReportCached, ImageEvent::Done) => PullStep::Pulled,
        (PullStep::OpenRegistry, ImageEvent::Done) => if listening {
            PullStep::FetchReporting
        } else {
            PullStep::Fetch
        },
        (PullStep::FetchReporting, ImageEvent::Done) => PullStep::Pulled,
        (PullStep::Fetch, ImageEvent::Done) => PullStep::Pulled,
        _ => step,
    }
}

impl PullStep {
    /// Takes an event into account.
    pub fn advance(self, event: ImageEvent, listening: bool) -> (r: PullStep)
        ensures
            r == pull_next(self, event, listening),
    {
        match (self, event) {
            (PullStep::Pulled, _) => self,
            (_, ImageEvent::Failed) => PullStep::Failed,
            (PullStep::ReadReference, ImageEvent::Done) => PullStep::LookUp,
            (PullStep::LookUp, ImageEvent::Found(true)) => PullStep::ReportCached,
            (PullStep::LookUp, ImageEvent::Found(false)) => PullStep::OpenRegistry,
            (PullStep::ReportCached, ImageEvent::Done) => PullStep::Pulled,
            (PullStep::OpenRegistry, ImageEvent::Done) => {
                if listening {
                    PullStep::FetchReporting
                } else {
                    PullStep::Fetch
                }
            },
            (PullStep::FetchReporting, ImageEvent::Done) => PullStep::Pulled,
            (PullStep::Fetch, ImageEvent::Done) => PullStep::Pulled,
            _ => self,
        }
    }
}

/// An image in the cache is had without a registry.
pub proof fn cached_images_need_no_registry(events: Seq<ImageEvent>, listening: bool)
    requires
        !events.contains(ImageEvent::Found(false)),
    ensures
        ({
            let step = pull_run(events, listening);
            step != PullStep::OpenRegistry && step != PullStep::FetchReporting && step
                != PullStep::Fetch
        }),
    decreases events.len(),
{
    if events.len() > 0 {
        let before = events.drop_last();
        assert(events[events.len() - 1] == events.last());
        assert(events.contains(events.last()));
        assert forall|e: ImageEvent| before.contains(e) implies events.contains(e) by {
            let i = choose|i: int| 0 <= i < before.len() && before[i] == e;
            assert(events[i] == e);
        }
        cached_images_need_no_registry(before, listening);
    }
}

/// The step that a list of events leads to.
pub open spec fn pull_run(events: Seq<ImageEvent>, listening: bool) -> PullStep
    decreases events.len(),
{
    if events.len() == 0 {
        PullStep::ReadReference
    } else {
        pull_next(pull_run(events.drop_last(), listening), events.last(), listening)
    }
}

/// The failure of a fetch that did not run to its end.
pub fn pull_panic_error(cause: &str) -> (r: MicrosandboxError)
    ensures
        r@ == ErrorView::Custom("pull task panicked: "@ + cause@),
{
    let mut message = "pull task panicked: ".to_owned();
    message.append(cause);
    MicrosandboxError::Custom(message)
}

/// Progress of a fetch, as a caller sees it.
pub enum PullProgress {
    Resolving { reference: String },
    Resolved {
        reference: String,
        manifest_digest: String,
        layer_count: usize,
        total_download_bytes: Option<u64>,
    },
    Complete { reference: String, layer_count: usize },
}

/// The sum of the sizes that are known, if any is.
pub open spec fn known_total(sizes: Seq<Option<u64>>) -> Option<nat>
    decreases sizes.len(),
{
    if sizes.len() == 0 {
        None
    } else {
        match (known_total(sizes.drop_last()), sizes.last()) {
            (Some(total), Some(size)) => Some(total + size as nat),
            (Some(total), None) => Some(total),
            (None, Some(size)) => Some(size as nat),
            (None, None) => None,
        }
    }
}

proof fn lemma_known_total_grows(sizes: Seq<Option<u64>>, n: int)
    requires
        0 <= n <= sizes.len(),
        known_total(sizes.take(n)) is Some,
    ensures
        known_total(sizes) is Some,
        known_total(sizes.take(n))->0 <= known_total(sizes)->0,
    decreases sizes.len() - n,
{
    if n < sizes.len() {
        assert(sizes.take(n + 1).drop_last() =~= sizes.take(n));
        lemma_known_total_grows(sizes, n + 1);
    } else {
        assert(sizes.take(n) =~= sizes);
    }
}

/// The progress that is reported for an image from the cache: the same three reports as for a
/// fetch. Without a listener there are none.
pub fn emit_cached_pull_progress(
    listening: bool,
    reference: &str,
    manifest_digest: &str,
    layer_sizes: &Vec<Option<u64>>,
) -> (r: Vec<PullProgress>)
    requires
        listening ==> (known_total(layer_sizes@) matches Some(total) ==> total <= u64::MAX),
    ensures
        !listening ==> r@.len() == 0,
        listening ==> {
            &&& r@.len() == 3
            &&& r@[0] matches PullProgress::Resolving { reference: a } && a@ == reference@
            &&& r@[1] matches PullProgress::Resolved {
                reference: a,
                manifest_digest: d,
                layer_count,
                total_download_bytes,
            } && a@ == reference@ && d@ == manifest_digest@ && layer_count == layer_sizes@.len()
                && match total_download_bytes {
                Some(total) => known_total(layer_sizes@) == Some(total as nat),
                None => known_total(layer_sizes@) is None,
            }
            &&& r@[2] matches PullProgress::Complete { reference: a, layer_count } && a@
                == reference@ && layer_count == layer_sizes@.len()
        },
{
    let mut out: Vec<PullProgress> = Vec::new();
    if !listening {
        return out;
    }
    let mut total: Option<u64> = None;
    let mut i: usize = 0;
    while i < layer_sizes.len()
        invariant
            i <= layer_sizes@.len(),
            known_total(layer_sizes@) matches Some(t) ==> t <= u64::MAX,
            match total {
                Some(t) => known_total(layer_sizes@.take(i as int)) == Some(t as nat),
                None => known_total(layer_sizes@.take(i as int)) is None,
            },
        decreases layer_sizes@.len() - i,
    {
        proof {
            assert(layer_sizes@.take(i + 1).drop_last() =~= layer_sizes@.take(i as int));
            if known_total(layer_sizes@.take(i + 1)) is Some {
                lemma_known_total_grows(layer_sizes@, i + 1);
            }
        }
        if let Some(size) = layer_sizes[i] {
            total = match total {
                Some(t) => Some(t + size),
                None => Some(size),
            };
        }
        i = i + 1;
    }
    assert(layer_sizes@.take(i as int) =~= layer_sizes@);
    out.push(PullProgress::Resolving { reference: reference.to_owned() });
    out.push(
        PullProgress::Resolved {
            reference: reference.to_owned(),
            manifest_digest: manifest_digest.to_owned(),
            layer_count: layer_sizes.len(),
            total_download_bytes: total,
        },
    );
    out.push(
        PullProgress::Complete { reference: reference.to_owned(), layer_count: layer_sizes.len() },
    );
    out
}

/// The most mebibytes that a disk can have.
pub const DISK_LIMIT_MIB: u64 = 0xffff_ffff;

/// The size of a flat root disk: what is asked for, else the usual size, but no less than the
/// image takes.
pub open spec fn flat_target(
    virtual_size_bytes: u64,
    size_mib: Option<u32>,
    default_mib: u32,
) -> nat {
    let minimum = (virtual_size_bytes + 1048575) / 1048576;
    match size_mib {
        Some(size) => size as nat,
        None => if default_mib >= minimum {
            default_mib as nat
        } else {
            minimum as nat
        },
    }
}

/// The size of a flat root disk in mebibytes.
pub fn flat_root_size(virtual_size_bytes: u64, size_mib: Option<u32>, default_mib: u32) -> (r:
    MicrosandboxResult<u32>)
    ensures
        match r {
            Ok(target) => target == flat_target(virtual_size_bytes, size_mib, default_mib),
            Err(e) => flat_target(virtual_size_bytes, size_mib, default_mib) > DISK_LIMIT_MIB && e@
                == ErrorView::InvalidConfig("flat root disk size exceeds supported MiB range"@),
        },
{
    let minimum: u64 = if virtual_size_bytes % 1048576 == 0 {
        virtual_size_bytes / 1048576
    } else {
        virtual_size_bytes / 1048576 + 1
    };
    let target: u64 = match size_mib {
        Some(size) => size as u64,
        None => {
            if default_mib as u64 >= minimum {
                default_mib as u64
            } else {
                minimum
            }
        },
    };
    if target > DISK_LIMIT_MIB {
        return Err(
            MicrosandboxError::InvalidConfig(
                "flat root disk size exceeds supported MiB range".to_owned(),
            ),
        );
    }
    Ok(target as u32)
}

/// The policy as the image store reads it.
#[derive(Clone, Copy, Debug, PartialEq, Eq, Structural)]
pub enum ImagePullPolicy {
    IfMissing,
    Always,
    Never,
}

/// The policy as the image store reads it.
pub fn image_pull_policy(policy: PullPolicy) -> (r: ImagePullPolicy)
    ensures
        r == match policy {
            PullPolicy::IfMissing => ImagePullPolicy::IfMissing,
            PullPolicy::Always => ImagePullPolicy::Always,
            PullPolicy::Never => ImagePullPolicy::Never,
        },
{
    match policy {
        PullPolicy::IfMissing => ImagePullPolicy::IfMissing,
        PullPolicy::Always => ImagePullPolicy::Always,
        PullPolicy::Never => ImagePullPolicy::Never,
    }
}

/// How a registry is reached.
pub struct RegistrySettings {
    pub auth: RegistryAuth,
    /// Certificates that are trusted besides the usual ones.
    pub ca_certs: Vec<Vec<u8>>,
    /// Registries that are reached without encryption.
    pub insecure_registries: Vec<String>,
}

/// How a registry is reached for one sandbox: its own credentials count before the usual ones, its
/// certificates come on top of them, and it may reach this registry without encryption.
pub fn registry_config(
    usual: RegistrySettings,
    auth: Option<RegistryAuth>,
    insecure: bool,
    ca_certs: &Vec<Vec<u8>>,
    registry: &str,
) -> (r: RegistrySettings)
    ensures
        r.auth == match auth {
            Some(own) => own,
            None => usual.auth,
        },
        r.ca_certs@.len() == usual.ca_certs@.len() + ca_certs@.len(),
        forall|i: int| 0 <= i < usual.ca_certs@.len() ==> r.ca_certs@[i] == usual.ca_certs@[i],
        forall|i: int|
            0 <= i < ca_certs@.len() ==> (#[trigger] r.ca_certs@[usual.ca_certs@.len() + i])@
                == ca_certs@[i]@,
        views(r.insecure_registries@) == if insecure {
            views(usual.insecure_registries@).push(registry@)
        } else {
            views(usual.insecure_registries@)
        },
{
    let auth = match auth {
        Some(own) => own,
        None => usual.auth,
    };
    let mut certs = usual.ca_certs;
    let ghost before = certs@;
    let mut i: usize = 0;
    while i < ca_certs.len()
        invariant
            i <= ca_certs@.len(),
            certs@.len() == before.len() + i,
            forall|k: int| 0 <= k < before.len() ==> certs@[k] == before[k],
            forall|k: int|
                0 <= k < i ==> (#[trigger] certs@[before.len() + k])@ == ca_certs@[k]@,
        decreases ca_certs@.len() - i,
    {
        let cert = ca_certs[i].clone();
        assert(cert@ =~= ca_certs@[i as int]@);
        certs.push(cert);
        i = i + 1;
    }
    let mut insecure_registries = usual.insecure_registries;
    if insecure {
        let ghost listed = insecure_registries@;
        insecure_registries.push(registry.to_owned());
        assert(views(insecure_registries@) =~= views(listed).push(registry@));
    }
    RegistrySettings { auth, ca_certs: certs, insecure_registries }
}

// ------------------------------------------------------------------------------------------------
// What resolving and fetching achieve
// ------------------------------------------------------------------------------------------------

/// A fresh sandbox gets its image by its tag. A restored one gets the manifest that it depends on:
/// from the cache where the cache has it; else, where the policy allows a fetch, by its digest, or
/// only its defaults for a flat disk; else not at all.
pub proof fn images_are_resolved(
    digest: Seq<char>,
    policy: PullPolicy,
    materialization: RootfsMaterialization,
)
    ensures
        image_start(None) == ImageStep::FetchTagged,
        image_next(image_start(None), ImageEvent::Done, policy, materialization)
            == ImageStep::Tagged,
        ({
            let read = image_next(
                image_start(Some(digest)),
                ImageEvent::Done,
                policy,
                materialization,
            );
            let pinned = image_next(read, ImageEvent::Done, policy, materialization);
            let missed = image_next(pinned, ImageEvent::Found(false), policy, materialization);
            &&& image_start(Some(digest)) == ImageStep::ReadDigest
            &&& read == ImageStep::PinReference
            &&& pinned == ImageStep::LookUp
            &&& image_next(pinned, ImageEvent::Found(true), policy, materialization)
                == ImageStep::Cached
            &&& policy == PullPolicy::Never ==> missed == ImageStep::Refused
            &&& policy != PullPolicy::Never && materialization == RootfsMaterialization::Flat
                ==> missed == ImageStep::FetchDefaults
            &&& policy != PullPolicy::Never && materialization == RootfsMaterialization::Layered
                ==> missed == ImageStep::FetchPinned
            &&& image_next(
                ImageStep::FetchDefaults,
                ImageEvent::Done,
                policy,
                materialization,
            ) == ImageStep::Fetched
            &&& image_next(ImageStep::FetchPinned, ImageEvent::Done, policy, materialization)
                == ImageStep::Fetched
        }),
{
}

/// A step towards an image that fails fails the way, but for an image that the registry does not
/// have any more, which is said; and nothing follows the end.
pub proof fn missing_images_are_named(
    step: ImageStep,
    event: ImageEvent,
    policy: PullPolicy,
    materialization: RootfsMaterialization,
)
    ensures
        ({
            let over = step == ImageStep::Cached || step == ImageStep::Fetched || step
                == ImageStep::Tagged || step == ImageStep::Refused || step == ImageStep::Failed
                || step == ImageStep::Unavailable;
            let failed = image_next(step, ImageEvent::Failed, policy, materialization);
            &&& over ==> image_next(step, event, policy, materialization) == step
            &&& step == ImageStep::FetchPinned ==> failed == ImageStep::Unavailable
            &&& !over && step != ImageStep::FetchPinned ==> failed == ImageStep::Failed
            &&& step == ImageStep::LookUp && event == ImageEvent::Done ==> image_next(
                step,
                event,
                policy,
                materialization,
            ) == step
            &&& step != ImageStep::LookUp && event is Found ==> image_next(
                step,
                event,
                policy,
                materialization,
            ) == step
        }),
{
}

/// A fetch gets the image: what the cache has is reported and used, what it has not is fetched from
/// the registry, with reports where anyone listens. A step that fails fails the fetch.
pub proof fn fetches_get_the_image(step: PullStep, event: ImageEvent, listening: bool)
    ensures
        pull_run(Seq::empty(), listening) == PullStep::ReadReference,
        pull_next(PullStep::ReadReference, ImageEvent::Done, listening) == PullStep::LookUp,
        pull_next(PullStep::LookUp, ImageEvent::Found(true), listening) == PullStep::ReportCached,
        pull_next(PullStep::ReportCached, ImageEvent::Done, listening) == PullStep::Pulled,
        pull_next(PullStep::LookUp, ImageEvent::Found(false), listening) == PullStep::OpenRegistry,
        listening ==> pull_next(PullStep::OpenRegistry, ImageEvent::Done, listening)
            == PullStep::FetchReporting,
        !listening ==> pull_next(PullStep::OpenRegistry, ImageEvent::Done, listening)
            == PullStep::Fetch,
        pull_next(PullStep::FetchReporting, ImageEvent::Done, listening) == PullStep::Pulled,
        pull_next(PullStep::Fetch, ImageEvent::Done, listening) == PullStep::Pulled,
        step != PullStep::Pulled ==> pull_next(step, ImageEvent::Failed, listening)
            == PullStep::Failed,
        step == PullStep::Pulled || step == PullStep::Failed ==> pull_next(step, event, listening)
            == step,
        step == PullStep::LookUp && event == ImageEvent::Done ==> pull_next(step, event, listening)
            == step,
        step != PullStep::LookUp && event is Found ==> pull_next(step, event, listening) == step,
{
}

/// The bytes of a download are the sum of what is known: another layer of known size adds its size,
/// one of unknown size adds nothing, and a sum is known as soon as one size is.
pub proof fn known_sizes_add_up(sizes: Seq<Option<u64>>, size: u64)
    ensures
        known_total(Seq::empty()) is None,
        known_total(sizes.push(None)) == known_total(sizes),
        known_total(sizes.push(Some(size))) == Some(
            (match known_total(sizes) {
                Some(total) => total,
                None => 0nat,
            }) + size as nat,
        ),
{
    assert(sizes.push(None).drop_last() =~= sizes);
    assert(sizes.push(Some(size)).drop_last() =~= sizes);
}

/// The size of a flat disk is the size that is asked for. Without one it is the usual size where
/// the image fits in it, else the smallest number of mebibytes in which the image fits.
pub proof fn flat_disks_hold_their_image(
    virtual_size_bytes: u64,
    size_mib: Option<u32>,
    default_mib: u32,
)
    ensures
        ({
            let target = flat_target(virtual_size_bytes, size_mib, default_mib);
            &&& size_mib is Some ==> target == size_mib->0
            &&& size_mib is None ==> {
                &&& target >= default_mib
                &&& target * 1048576 >= virtual_size_bytes
                &&& target > default_mib ==> (target - 1) * 1048576 < virtual_size_bytes
            }
        }),
{
}

/// A restored sandbox depends on the manifest that it was recorded with, and a fresh one on none.
/// Only another image than the one depended on is refused.
pub proof fn restores_depend_on_their_manifest(config: SandboxConfig, resolved: Seq<char>)
    ensures
        ({
            let restored = config.snapshot_upper_source is Some || config.checkpoint_restore is Some
                || config.snapshot_upper_layers@.len() > 0;
            &&& restored && config.manifest_digest is Some ==> expected_manifest(config) == Some(
                config.manifest_digest->0@,
            )
            &&& !restored || config.manifest_digest is None ==> expected_manifest(config) is None
            &&& manifest_refusal(expected_manifest(config), resolved) is None <==> !restored
                || config.manifest_digest is None || config.manifest_digest->0@ == resolved
        }),
        manifest_refusal(expected_manifest(config), resolved) is Some ==> manifest_refusal(
            expected_manifest(config),
            resolved,
        )->0 is SnapshotIntegrity,
{
}

/// A pinned reference keeps the registry and the repository and names the digest.
pub proof fn pins_name_their_digest(
    registry: Seq<char>,
    repository: Seq<char>,
    digest: Seq<char>,
)
    ensures
        pinned_reference(registry, repository, digest) == registry + seq!['/'] + repository + seq![
            '@',
        ] + digest,
{
    reveal_strlit("/");
    reveal_strlit("@");
    assert("/"@ =~= seq!['/']);
    assert("@"@ =~= seq!['@']);
}

/// Only a flat root disk asks for a flat image.
pub proof fn flat_disks_ask_for_flat_images(root_disk: Option<RootDisk>)
    ensures
        match root_disk {
            Some(RootDisk::Flat { .. }) => materialization_of(root_disk)
                == RootfsMaterialization::Flat,
            _ => materialization_of(root_disk) == RootfsMaterialization::Layered,
        },
{
}

/// A manifest other than the pinned one is refused with both, the pinned one first.
pub proof fn other_manifests_are_refused(digest: Seq<char>, resolved: Seq<char>)
    ensures
        manifest_refusal(None, resolved) is None,
        manifest_refusal(Some(digest), digest) is None,
        digest != resolved ==> manifest_refusal(Some(digest), resolved) == Some(
            ErrorView::SnapshotIntegrity(
                "snapshot image digest mismatch: manifest pinned "@ + digest + ", resolved "@
                    + resolved,
            ),
        ),
{
}

/// A disk holds no more mebibytes than a number of thirty-two bits can count.
pub proof fn disks_have_a_limit()
    ensures
        DISK_LIMIT_MIB == u32::MAX,
{
}

} // verus!
