//! Which image a sandbox boots, and how it is fetched.

use microsandbox::error::MicrosandboxResult;
use microsandbox::images::{
    check_snapshot_manifest, digest_pinned_reference, emit_cached_pull_progress,
    expected_snapshot_manifest, fetch_reference, image_materialization, image_pull_policy,
    invalid_digest_error, invalid_reference_error, metadata_reference, pull_panic_error,
    registry_config, resolve_oci_image_for_create, snapshot_references, unavailable_error,
    uncached_error, ImageEvent, ImagePullPolicy, ImageStep, PullProgress, PullStep, RegistrySettings, RootfsMaterialization,
};
use microsandbox::types::{
    CheckpointRestore, FlatClone, OciRootfsSource, PullPolicy, RegistryAuth, RootDisk,
    RootfsSource, SandboxConfig, SandboxResources, SandboxSpec,
};

fn text<T>(r: MicrosandboxResult<T>) -> String {
    match r {
        Ok(_) => panic!("accepted"),
        Err(e) => e.message(),
    }
}

fn config() -> SandboxConfig {
    SandboxConfig::new(SandboxSpec::new(
        "restored".into(),
        RootfsSource::Oci(OciRootfsSource { reference: "alpine".into(), root_disk: None }),
        SandboxResources { cpus: 1, memory_mib: 512, max_cpus: 1, max_memory_mib: 512 },
    ))
}

#[test]
fn only_restores_depend_on_a_manifest() {
    let mut fresh = config();
    fresh.manifest_digest = Some("sha256:1".into());
    assert_eq!(expected_snapshot_manifest(&fresh), None);
    let mut layered = config();
    layered.manifest_digest = Some("sha256:1".into());
    layered.snapshot_upper_layers.push("/l".into());
    assert_eq!(expected_snapshot_manifest(&layered).as_deref(), Some("sha256:1"));
    let mut copied = config();
    copied.manifest_digest = Some("sha256:1".into());
    copied.snapshot_upper_source = Some("/u".into());
    assert_eq!(expected_snapshot_manifest(&copied).as_deref(), Some("sha256:1"));
    let mut full = config();
    full.checkpoint_restore = Some(CheckpointRestore {
        closure: "/c".into(),
        checkpoint_root: "r".into(),
        checkpoint_id: "i".into(),
    });
    assert_eq!(expected_snapshot_manifest(&full), None);
    full.manifest_digest = Some("sha256:1".into());
    assert_eq!(expected_snapshot_manifest(&full).as_deref(), Some("sha256:1"));
}

#[test]
fn other_manifests_are_refused() {
    assert!(check_snapshot_manifest(&None, "sha256:2").is_ok());
    assert!(check_snapshot_manifest(&Some("sha256:2".into()), "sha256:2").is_ok());
    assert_eq!(
        text(check_snapshot_manifest(&Some("sha256:1".into()), "sha256:2")),
        "snapshot image digest mismatch: manifest pinned sha256:1, resolved sha256:2"
    );
}

#[test]
fn flat_disks_take_flat_images() {
    assert_eq!(image_materialization(&None), RootfsMaterialization::Layered);
    assert_eq!(
        image_materialization(&Some(RootDisk::Flat { size_mib: None, clone: FlatClone::Auto, fstype: None })),
        RootfsMaterialization::Flat
    );
    assert_eq!(
        image_materialization(&Some(RootDisk::Managed { size_mib: None })),
        RootfsMaterialization::Layered
    );
}

#[test]
fn references_are_pinned_by_digest() {
    assert_eq!(
        snapshot_references("docker.io/library/alpine@sha256:ab".into(), "alpine:3"),
        vec!["docker.io/library/alpine@sha256:ab", "alpine:3"]
    );
    let fetched = |step| fetch_reference(step, "alpine@sha256:ab", "alpine:3");
    assert_eq!(fetched(ImageStep::FetchTagged).as_deref(), Some("alpine:3"));
    assert_eq!(fetched(ImageStep::FetchPinned).as_deref(), Some("alpine@sha256:ab"));
    assert_eq!(fetched(ImageStep::FetchDefaults).as_deref(), Some("alpine@sha256:ab"));
    assert_eq!(fetched(ImageStep::LookUp), None);
    assert_eq!(
        digest_pinned_reference("docker.io", "library/alpine", "sha256:ab"),
        "docker.io/library/alpine@sha256:ab"
    );
    assert_eq!(metadata_reference("alpine:3", None), "alpine:3");
    assert_eq!(metadata_reference("alpine:3", Some("alpine@sha256:ab".into())), "alpine@sha256:ab");
}

fn resolve(
    expected: Option<String>,
    events: &[ImageEvent],
    policy: PullPolicy,
    materialization: RootfsMaterialization,
) -> ImageStep {
    let mut step = resolve_oci_image_for_create(&expected);
    for event in events {
        step = step.advance(*event, policy, materialization);
    }
    step
}

#[test]
fn fresh_sandboxes_follow_the_tag_and_restores_do_not() {
    let layered = RootfsMaterialization::Layered;
    let done = ImageEvent::Done;
    let policy = PullPolicy::IfMissing;
    assert_eq!(resolve(None, &[], policy, layered), ImageStep::FetchTagged);
    assert_eq!(resolve(None, &[done], policy, layered), ImageStep::Tagged);
    assert_eq!(resolve(None, &[ImageEvent::Failed], policy, layered), ImageStep::Failed);

    let digest = || Some("sha256:1".to_string());
    let cached = [done, done, ImageEvent::Found(true)];
    assert_eq!(resolve(digest(), &cached, policy, layered), ImageStep::Cached);
    let missing = [done, done, ImageEvent::Found(false)];
    assert_eq!(resolve(digest(), &missing, policy, layered), ImageStep::FetchPinned);
    assert_eq!(
        resolve(digest(), &missing, policy, RootfsMaterialization::Flat),
        ImageStep::FetchDefaults
    );
    assert_eq!(resolve(digest(), &missing, PullPolicy::Never, layered), ImageStep::Refused);
    let gone = [done, done, ImageEvent::Found(false), ImageEvent::Failed];
    assert_eq!(resolve(digest(), &gone, policy, layered), ImageStep::Unavailable);
    assert_eq!(
        resolve(digest(), &gone, policy, RootfsMaterialization::Flat),
        ImageStep::Failed
    );
    let fetched = [done, done, ImageEvent::Found(false), done];
    assert_eq!(resolve(digest(), &fetched, policy, layered), ImageStep::Fetched);
}

#[test]
fn images_that_cannot_be_had_say_why() {
    assert_eq!(
        invalid_digest_error("sha256", "no colon").message(),
        "invalid snapshot image digest sha256: no colon"
    );
    assert_eq!(
        invalid_reference_error(true, "empty").message(),
        "invalid config: invalid pinned reference: empty"
    );
    assert_eq!(
        invalid_reference_error(false, "empty").message(),
        "invalid config: invalid image reference: empty"
    );
    assert_eq!(
        uncached_error("sha256:1").message(),
        "snapshot base image sha256:1 is not cached locally and pull policy is `never`; \
         this snapshot cannot be restored losslessly"
    );
    assert_eq!(
        unavailable_error("sha256:1", "404").message(),
        "snapshot base image sha256:1 no longer available in registry \
         (it may have been garbage-collected upstream); this snapshot \
         cannot be restored losslessly: 404"
    );
    assert_eq!(pull_panic_error("boom").message(), "pull task panicked: boom");
}

#[test]
fn cached_images_report_the_same_progress() {
    assert!(emit_cached_pull_progress(false, "alpine", "sha256:1", &vec![Some(1)]).is_empty());
    let reports =
        emit_cached_pull_progress(true, "alpine", "sha256:1", &vec![Some(3), None, Some(4)]);
    assert_eq!(reports.len(), 3);
    assert!(matches!(&reports[0], PullProgress::Resolving { reference } if reference == "alpine"));
    assert!(matches!(
        &reports[1],
        PullProgress::Resolved {
            reference,
            manifest_digest,
            layer_count: 3,
            total_download_bytes: Some(7)
        } if reference == "alpine" && manifest_digest == "sha256:1"
    ));
    assert!(matches!(
        &reports[2],
        PullProgress::Complete { reference, layer_count: 3 } if reference == "alpine"
    ));
    let unknown = emit_cached_pull_progress(true, "alpine", "sha256:1", &vec![None]);
    assert!(matches!(&unknown[1], PullProgress::Resolved { total_download_bytes: None, .. }));
}

#[test]
fn registries_are_opened_only_for_what_is_missing() {
    let done = ImageEvent::Done;
    let look = PullStep::ReadReference.advance(done, true);
    assert_eq!(look, PullStep::LookUp);
    let cached = look.advance(ImageEvent::Found(true), true);
    assert_eq!(cached, PullStep::ReportCached);
    assert_eq!(cached.advance(done, true), PullStep::Pulled);
    let open = look.advance(ImageEvent::Found(false), true);
    assert_eq!(open, PullStep::OpenRegistry);
    assert_eq!(open.advance(done, true), PullStep::FetchReporting);
    assert_eq!(open.advance(done, false), PullStep::Fetch);
    assert_eq!(open.advance(done, false).advance(done, false), PullStep::Pulled);
    assert_eq!(open.advance(ImageEvent::Failed, false), PullStep::Failed);
}

#[test]
fn registry_settings_are_layered() {
    let usual = || RegistrySettings {
        auth: RegistryAuth::Anonymous,
        ca_certs: vec![b"one".to_vec()],
        insecure_registries: vec!["a".into()],
    };
    let plain = registry_config(usual(), None, false, &Vec::new(), "reg");
    assert!(matches!(plain.auth, RegistryAuth::Anonymous));
    assert_eq!(plain.ca_certs, vec![b"one".to_vec()]);
    assert_eq!(plain.insecure_registries, vec!["a"]);
    let own = RegistryAuth::Basic { username: "u".into(), password: "p".into() };
    let full = registry_config(usual(), Some(own), true, &vec![b"two".to_vec()], "reg");
    assert!(matches!(full.auth, RegistryAuth::Basic { username, .. } if username == "u"));
    assert_eq!(full.ca_certs, vec![b"one".to_vec(), b"two".to_vec()]);
    assert_eq!(full.insecure_registries, vec!["a", "reg"]);
}

#[test]
fn pull_policies_keep_their_meaning() {
    assert_eq!(image_pull_policy(PullPolicy::IfMissing), ImagePullPolicy::IfMissing);
    assert_eq!(image_pull_policy(PullPolicy::Always), ImagePullPolicy::Always);
    assert_eq!(image_pull_policy(PullPolicy::Never), ImagePullPolicy::Never);
}
