//! Disk images: which ones a sandbox attaches, and that none is attached twice.

use vstd::prelude::*;

use crate::error::{ErrorView, MicrosandboxError, MicrosandboxResult};
use crate::host_paths::{
    windows_file_name, windows_join, windows_joined, windows_name, windows_parent,
    windows_parent_path,
};
use crate::mounts::{text_of, ResolvedNamedVolume};
use crate::namemap::NameMap;
use crate::outside::{quoted, quoted_text};
use crate::types::{RootfsSource, SandboxConfig, VolumeKind, VolumeMount};

verus! {

/// A disk that a sandbox attaches.
pub struct DiskLockRequest {
    pub path: String,
    pub readonly: bool,
    pub label: String,
    pub volume_name: Option<String>,
}

/// A [`DiskLockRequest`] as mathematical values.
pub struct DiskRequestView {
    pub path: Seq<char>,
    pub readonly: bool,
    pub label: Seq<char>,
    pub volume_name: Option<Seq<char>>,
}

impl View for DiskLockRequest {
    type V = DiskRequestView;

    open spec fn view(&self) -> DiskRequestView {
        DiskRequestView {
            path: self.path@,
            readonly: self.readonly,
            label: self.label@,
            volume_name: text_of(self.volume_name),
        }
    }
}

/// The disk of the root filesystem, if it is one.
pub open spec fn root_request(image: RootfsSource) -> Seq<DiskRequestView> {
    match image {
        RootfsSource::DiskImage { path, format, fstype } => seq![
            DiskRequestView {
                path: path@,
                readonly: false,
                label: "disk image rootfs "@ + path@,
                volume_name: None,
            },
        ],
        _ => Seq::empty(),
    }
}

/// The disk of a mount, if it is one.
pub open spec fn mount_request(
    mount: VolumeMount,
    volumes: Map<Seq<char>, ResolvedNamedVolume>,
) -> Seq<DiskRequestView> {
    match mount {
        VolumeMount::DiskImage { host, guest, format, fstype, options } => seq![
            DiskRequestView {
                path: host@,
                readonly: options.readonly,
                label: "disk image "@ + host@,
                volume_name: None,
            },
        ],
        VolumeMount::Named { name, guest, create, options, stat_virtualization, host_permissions } => {
            if volumes.dom().contains(name@) && volumes[name@].kind == VolumeKind::Disk {
                seq![
                    DiskRequestView {
                        path: volumes[name@].path@,
                        readonly: options.readonly,
                        label: "named disk volume "@ + quoted_text(name@),
                        volume_name: Some(name@),
                    },
                ]
            } else {
                Seq::empty()
            }
        },
        _ => Seq::empty(),
    }
}

/// The disks of the mounts, in order.
pub open spec fn mount_requests(
    mounts: Seq<VolumeMount>,
    volumes: Map<Seq<char>, ResolvedNamedVolume>,
) -> Seq<DiskRequestView>
    decreases mounts.len(),
{
    if mounts.len() == 0 {
        Seq::empty()
    } else {
        mount_requests(mounts.drop_last(), volumes) + mount_request(mounts.last(), volumes)
    }
}

/// Every disk of a list, as mathematical values.
pub open spec fn request_views(v: Seq<DiskLockRequest>) -> Seq<DiskRequestView> {
    v.map_values(|r: DiskLockRequest| r@)
}

/// The disks that a sandbox attaches, in the order in which they are locked: the root filesystem
/// first, then the mounts.
pub fn disk_lock_requests(config: &SandboxConfig, volumes: &NameMap<ResolvedNamedVolume>) -> (r:
    Vec<DiskLockRequest>)
    ensures
        request_views(r@) == root_request(config.spec.image) + mount_requests(
            config.spec.mounts@,
            volumes@,
        ),
{
    let mut requests: Vec<DiskLockRequest> = Vec::new();
    if let RootfsSource::DiskImage { path, .. } = &config.spec.image {
        let mut label = "disk image rootfs ".to_owned();
        label.append(path.as_str());
        requests.push(
            DiskLockRequest { path: path.clone(), readonly: false, label, volume_name: None },
        );
    }
    let ghost root = root_request(config.spec.image);
    assert(request_views(requests@) =~= root);
    assert(root + Seq::<DiskRequestView>::empty() =~= root);
    let mounts = &config.spec.mounts;
    let mut i: usize = 0;
    while i < mounts.len()
        invariant
            i <= mounts@.len(),
            mounts@ == config.spec.mounts@,
            request_views(requests@) == root + mount_requests(mounts@.take(i as int), volumes@),
        decreases mounts@.len() - i,
    {
        let ghost before = requests@;
        let ghost done = mount_requests(mounts@.take(i as int), volumes@);
        assert(mounts@.take(i + 1).drop_last() =~= mounts@.take(i as int));
        match &mounts[i] {
            VolumeMount::DiskImage { host, options, .. } => {
                let mut label = "disk image ".to_owned();
                label.append(host.as_str());
                requests.push(
                    DiskLockRequest {
                        path: host.clone(),
                        readonly: options.readonly,
                        label,
                        volume_name: None,
                    },
                );
            },
            VolumeMount::Named { name, options, .. } => {
                if let Some(volume) = volumes.get(name.as_str()) {
                    if volume.kind == VolumeKind::Disk {
                        let mut label = "named disk volume ".to_owned();
                        label.append(quoted(name.as_str()).as_str());
                        requests.push(
                            DiskLockRequest {
                                path: volume.path.clone(),
                                readonly: options.readonly,
                                label,
                                volume_name: Some(name.clone()),
                            },
                        );
                    }
                }
            },
            _ => {},
        }
        assert(request_views(requests@) =~= request_views(before) + mount_request(
            mounts@[i as int],
            volumes@,
        ));
        assert(root + done + mount_request(mounts@[i as int], volumes@) =~= root + (done
            + mount_request(mounts@[i as int], volumes@)));
        i = i + 1;
    }
    assert(mounts@.take(i as int) =~= mounts@);
    requests
}

/// The disks admitted so far, by their canonical paths.
pub struct DiskAdmissions {
    pub seen: NameMap<String>,
}

/// The failure of a second attachment.
pub open spec fn attached_twice(
    canonical: Seq<char>,
    previous: Seq<char>,
    label: Seq<char>,
) -> ErrorView {
    ErrorView::InvalidConfig(
        "disk images cannot be attached more than once per sandbox: "@ + canonical + " ("@
            + previous + "; "@ + label + ")"@,
    )
}

impl DiskAdmissions {
    /// No disk yet.
    pub fn new() -> (r: Self)
        ensures
            r.seen@ == Map::<Seq<char>, String>::empty(),
    {
        DiskAdmissions { seen: NameMap::new() }
    }

    /// Admits a disk, unless the same file was admitted before.
    pub fn accept(self, canonical: &str, label: &str) -> (r: MicrosandboxResult<Self>)
        ensures
            match r {
                Ok(next) => {
                    &&& !self.seen@.dom().contains(canonical@)
                    &&& next.seen@.dom() == self.seen@.dom().insert(canonical@)
                    &&& next.seen@[canonical@]@ == label@
                    &&& forall|k: Seq<char>|
                        self.seen@.dom().contains(k) ==> next.seen@[k] == self.seen@[k]
                },
                Err(e) => {
                    &&& self.seen@.dom().contains(canonical@)
                    &&& e@ == attached_twice(canonical@, self.seen@[canonical@]@, label@)
                },
            },
    {
        if let Some(previous) = self.seen.get(canonical) {
            let mut message =
                "disk images cannot be attached more than once per sandbox: ".to_owned();
            message.append(canonical);
            message.append(" (");
            message.append(previous.as_str());
            message.append("; ");
            message.append(label);
            message.append(")");
            return Err(MicrosandboxError::InvalidConfig(message));
        }
        let seen = self.seen.with(canonical.to_owned(), label.to_owned());
        Ok(DiskAdmissions { seen })
    }
}

/// The files admitted after a list of disks; `None` once one of them was refused.
pub open spec fn admitted(disks: Seq<Seq<char>>) -> Option<Set<Seq<char>>>
    decreases disks.len(),
{
    if disks.len() == 0 {
        Some(Set::empty())
    } else {
        match admitted(disks.drop_last()) {
            Some(seen) => if seen.contains(disks.last()) {
                None
            } else {
                Some(seen.insert(disks.last()))
            },
            None => None,
        }
    }
}

/// Disks are admitted exactly when none of them occurs twice.
pub proof fn no_disk_is_attached_twice(disks: Seq<Seq<char>>)
    ensures
        admitted(disks) is Some <==> disks.no_duplicates(),
        admitted(disks) matches Some(seen) ==> forall|d: Seq<char>|
            seen.contains(d) <==> disks.contains(d),
    decreases disks.len(),
{
    if disks.len() > 0 {
        let before = disks.drop_last();
        no_disk_is_attached_twice(before);
        if disks.no_duplicates() {
            assert(before.no_duplicates()) by {
                assert forall|i: int, j: int|
                    0 <= i < before.len() && 0 <= j < before.len() && i != j implies before[i]
                    != before[j] by {
                    assert(disks[i] != disks[j]);
                }
            }
            if before.contains(disks.last()) {
                let i = choose|i: int| 0 <= i < before.len() && before[i] == disks.last();
                assert(disks[i] == disks[disks.len() - 1]);
            }
        }
        if admitted(disks) is Some {
            assert forall|i: int, j: int|
                0 <= i < disks.len() && 0 <= j < disks.len() && i != j implies disks[i]
                != disks[j] by {
                if i < before.len() && j < before.len() {
                    assert(before[i] != before[j]);
                } else if i < before.len() {
                    assert(before.contains(before[i]));
                } else {
                    assert(before.contains(before[j]));
                }
            }
            let seen = admitted(disks)->0;
            assert forall|d: Seq<char>| seen.contains(d) <==> disks.contains(d) by {
                if before.contains(d) {
                    let i = choose|i: int| 0 <= i < before.len() && before[i] == d;
                    assert(disks[i] == d);
                }
                if d == disks.last() {
                    assert(disks[disks.len() - 1] == d);
                }
                if disks.contains(d) && d != disks.last() {
                    let i = choose|i: int| 0 <= i < disks.len() && disks[i] == d;
                    assert(before[i] == d);
                }
            }
        }
    } else {
        assert(disks.no_duplicates());
    }
}

/// The failure of a disk whose file cannot be found.
pub fn missing_disk_error(path: &str, cause: &str) -> (r: MicrosandboxError)
    ensures
        r@ == ErrorView::InvalidConfig(
            "disk image host path does not exist: "@ + path@ + " ("@ + cause@ + ")"@,
        ),
{
    let mut message = "disk image host path does not exist: ".to_owned();
    message.append(path);
    message.append(" (");
    message.append(cause);
    message.append(")");
    MicrosandboxError::InvalidConfig(message)
}

/// How a disk is locked.
#[derive(Clone, Copy, Debug, PartialEq, Eq, Structural)]
pub enum DiskLockMode {
    /// With other readers.
    Shared,
    /// Alone.
    Exclusive,
}

/// How a disk is locked: readers share it.
pub fn disk_lock_mode(readonly: bool) -> (r: DiskLockMode)
    ensures
        r == if readonly {
            DiskLockMode::Shared
        } else {
            DiskLockMode::Exclusive
        },
{
    if readonly {
        DiskLockMode::Shared
    } else {
        DiskLockMode::Exclusive
    }
}

/// The failure of a disk whose lock file cannot be opened.
pub fn open_disk_error(path: &str, cause: &str) -> (r: MicrosandboxError)
    ensures
        r@ == ErrorView::InvalidConfig("open disk image lock "@ + path@ + ": "@ + cause@),
{
    let mut message = "open disk image lock ".to_owned();
    message.append(path);
    message.append(": ");
    message.append(cause);
    MicrosandboxError::InvalidConfig(message)
}

/// The failure of a disk that cannot be locked.
pub open spec fn lock_failure(
    path: Seq<char>,
    volume_name: Option<Seq<char>>,
    held: bool,
    cause: Seq<char>,
) -> ErrorView {
    ErrorView::InvalidConfig(
        if held {
            (match volume_name {
                Some(name) => "volume "@ + quoted_text(name),
                None => "disk image "@ + quoted_text(path),
            }) + " is already attached with an incompatible disk mode"@
        } else {
            "lock disk image "@ + path + ": "@ + cause
        },
    )
}

/// The failure of a disk that cannot be locked; `held` says that another sandbox has it.
pub fn lock_disk_error(path: &str, volume_name: Option<&str>, held: bool, cause: &str) -> (r:
    MicrosandboxError)
    ensures
        r@ == lock_failure(
            path@,
            match volume_name {
                Some(name) => Some(name@),
                None => None,
            },
            held,
            cause@,
        ),
{
    if held {
        let mut message = match volume_name {
            Some(name) => {
                let mut m = "volume ".to_owned();
                m.append(quoted(name).as_str());
                m
            },
            None => {
                let mut m = "disk image ".to_owned();
                m.append(quoted(path).as_str());
                m
            },
        };
        message.append(" is already attached with an incompatible disk mode");
        MicrosandboxError::InvalidConfig(message)
    } else {
        let mut message = "lock disk image ".to_owned();
        message.append(path);
        message.append(": ");
        message.append(cause);
        MicrosandboxError::InvalidConfig(message)
    }
}

/// The lock file beside a disk image on Windows: the image's own name with `.lock` behind it, in
/// the image's directory.
pub fn windows_disk_lock_path(path: &str) -> (r: MicrosandboxResult<String>)
    ensures
        match r {
            Ok(lock) => windows_name(path@) is Some && lock@ == windows_joined(
                windows_parent(path@),
                windows_name(path@)->0 + ".lock"@,
            ),
            Err(e) => windows_name(path@) is None && e@ == ErrorView::InvalidConfig(
                "disk image path has no file name: "@ + path@,
            ),
        },
{
    match windows_file_name(path) {
        Some(name) => {
            let mut lock = name;
            lock.append(".lock");
            let parent = windows_parent_path(path);
            Ok(windows_join(parent.as_str(), lock.as_str()))
        },
        None => {
            let mut message = "disk image path has no file name: ".to_owned();
            message.append(path);
            Err(MicrosandboxError::InvalidConfig(message))
        },
    }
}

/// Every disk that a sandbox attaches is locked: the disk of its root filesystem for writing, each
/// disk image and each volume that is a disk as its mount says; and nothing else is.
pub proof fn every_disk_is_locked(
    config: SandboxConfig,
    volumes: Map<Seq<char>, ResolvedNamedVolume>,
    i: int,
)
    requires
        0 <= i < config.spec.mounts@.len(),
    ensures
        ({
            let requests = root_request(config.spec.image) + mount_requests(
                config.spec.mounts@,
                volumes,
            );
            &&& config.spec.image is DiskImage ==> requests[0].path
                == config.spec.image->DiskImage_path@ && !requests[0].readonly
                && requests[0].volume_name is None
            &&& match config.spec.mounts@[i] {
                VolumeMount::DiskImage { host, options, .. } => exists|k: int|
                    0 <= k < requests.len() && (#[trigger] requests[k]).path == host@
                        && requests[k].readonly == options.readonly && requests[k].volume_name
                        is None,
                VolumeMount::Named { name, options, .. } => volumes.dom().contains(name@)
                    && volumes[name@].kind == VolumeKind::Disk ==> exists|k: int|
                    0 <= k < requests.len() && (#[trigger] requests[k]).path
                        == volumes[name@].path@ && requests[k].readonly == options.readonly
                        && requests[k].volume_name == Some(name@),
                _ => true,
            }
        }),
{
    let mounts = config.spec.mounts@;
    let root = root_request(config.spec.image);
    let rest = mount_requests(mounts, volumes);
    let requests = root + rest;
    if config.spec.image is DiskImage {
        assert(requests[0] == root[0]);
    }
    let own = mount_request(mounts[i], volumes);
    if own.len() > 0 {
        lemma_request_is_kept(mounts, volumes, i);
        let k = choose|k: int| 0 <= k < rest.len() && rest[k] == own[0];
        assert(requests[root.len() + k] == own[0]);
    }
}

proof fn lemma_request_is_kept(
    mounts: Seq<VolumeMount>,
    volumes: Map<Seq<char>, ResolvedNamedVolume>,
    i: int,
)
    requires
        0 <= i < mounts.len(),
        mount_request(mounts[i], volumes).len() > 0,
    ensures
        mount_requests(mounts, volumes).contains(mount_request(mounts[i], volumes)[0]),
    decreases mounts.len(),
{
    let all = mount_requests(mounts, volumes);
    let before = mount_requests(mounts.drop_last(), volumes);
    if i == mounts.len() - 1 {
        assert(all[before.len() as int] == mount_request(mounts[i], volumes)[0]);
    } else {
        assert(mounts.drop_last()[i] == mounts[i]);
        lemma_request_is_kept(mounts.drop_last(), volumes, i);
        let k = choose|k: int|
            0 <= k < before.len() && before[k] == mount_request(mounts[i], volumes)[0];
        assert(all[k] == before[k]);
    }
}

/// One mount attaches at most one disk, and shared directories, memory and volumes that are
/// directories attach none.
pub proof fn only_disks_are_locked(
    mount: VolumeMount,
    volumes: Map<Seq<char>, ResolvedNamedVolume>,
    image: RootfsSource,
)
    ensures
        mount_request(mount, volumes).len() <= 1,
        mount is Bind || mount is Tmpfs ==> mount_request(mount, volumes).len() == 0,
        mount is Named && (!volumes.dom().contains(mount->Named_name@)
            || volumes[mount->Named_name@].kind == VolumeKind::Directory) ==> mount_request(
            mount,
            volumes,
        ).len() == 0,
        !(image is DiskImage) ==> root_request(image).len() == 0,
{
}

/// A disk that is held elsewhere is named by its volume, or else by its path; any other failure by
/// its path and its cause.
pub proof fn held_disks_are_named(
    path: Seq<char>,
    volume: Option<Seq<char>>,
    cause: Seq<char>,
)
    ensures
        lock_failure(path, Some(volume->0), true, cause) == ErrorView::InvalidConfig(
            "volume "@ + quoted_text(volume->0)
                + " is already attached with an incompatible disk mode"@,
        ),
        lock_failure(path, None, true, cause) == ErrorView::InvalidConfig(
            "disk image "@ + quoted_text(path)
                + " is already attached with an incompatible disk mode"@,
        ),
        lock_failure(path, volume, false, cause) == ErrorView::InvalidConfig(
            "lock disk image "@ + path + ": "@ + cause,
        ),
{
}

/// Disks are requested under the words by which they are known, and a disk that is asked for twice
/// is reported with both.
pub proof fn disks_have_their_words(
    canonical: Seq<char>,
    previous: Seq<char>,
    label: Seq<char>,
    image: RootfsSource,
    request: DiskLockRequest,
)
    ensures
        attached_twice(canonical, previous, label) == ErrorView::InvalidConfig(
            "disk images cannot be attached more than once per sandbox: "@ + canonical + " ("@
                + previous + "; "@ + label + ")"@,
        ),
        image is DiskImage ==> root_request(image).len() == 1 && root_request(image)[0].label
            == "disk image rootfs "@ + image->DiskImage_path@ && root_request(image)[0].path
            == image->DiskImage_path@ && !root_request(image)[0].readonly
            && root_request(image)[0].volume_name is None,
        !(image is DiskImage) ==> root_request(image).len() == 0,
        request@.path == request.path@,
        request@.readonly == request.readonly,
        request@.label == request.label@,
        request.volume_name is Some ==> request@.volume_name == Some(request.volume_name->0@),
        request.volume_name is None ==> request@.volume_name is None,
{
}

/// A disk that is mounted is known by its path, and one of a named volume by the name.
pub proof fn mounted_disks_have_their_words(
    mount: VolumeMount,
    volumes: Map<Seq<char>, ResolvedNamedVolume>,
)
    ensures
        mount is DiskImage ==> mount_request(mount, volumes).len() == 1 && mount_request(
            mount,
            volumes,
        )[0].label == "disk image "@ + mount->DiskImage_host@,
        mount is Named && mount_request(mount, volumes).len() > 0 ==> mount_request(
            mount,
            volumes,
        )[0].label == "named disk volume "@ + quoted_text(mount->Named_name@) && mount_request(
            mount,
            volumes,
        )[0].volume_name == Some(mount->Named_name@),
{
}

} // verus!
