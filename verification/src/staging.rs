//! Guest files that are staged in directories of their own, so that sharing one does not expose
//! its neighbours.

use vstd::prelude::*;

use crate::error::{failure, ErrorView, MicrosandboxError, MicrosandboxResult};
use crate::host::{crosses_devices, is_cross_device_link_error, IoError};
use crate::host_paths::{
    host_joined, windows_file_name, windows_join, windows_joined, windows_name,
};
use crate::mounts::{text_of, StagedFileMount};
use crate::namemap::NameMap;
use crate::paths::{file_name, joined, path_file_name, path_join};
use crate::text::{has_char, hex, hex_text};
use crate::types::VolumeMount;

verus! {

/// The bytes of a 32-bit number, highest first.
pub open spec fn high_bytes_first(n: u32) -> Seq<u8> {
    seq![
        (n / 16777216) as u8,
        ((n / 65536) % 256) as u8,
        ((n / 256) % 256) as u8,
        (n % 256) as u8,
    ]
}

/// The tag of a staged file: a number in eight hexadecimal digits.
pub open spec fn file_tag(id: u32) -> Seq<char> {
    "fm_"@ + hex(high_bytes_first(id))
}

/// The tag of a staged file.
pub fn file_mount_tag(id: u32) -> (r: String)
    ensures
        r@ == file_tag(id),
{
    let mut bytes: Vec<u8> = Vec::new();
    bytes.push((id / 16777216) as u8);
    bytes.push(((id / 65536) % 256) as u8);
    bytes.push(((id / 256) % 256) as u8);
    bytes.push((id % 256) as u8);
    assert(bytes@ =~= high_bytes_first(id));
    let mut out = "fm_".to_owned();
    out.append(hex_text(bytes.as_slice()).as_str());
    out
}

/// Whether a mount is a host file, given what is at its host path.
pub open spec fn is_file_mount(mount: VolumeMount, is_file: bool) -> bool {
    mount is Bind && is_file
}

/// The positions of the mounts that are host files.
pub open spec fn file_positions(mounts: Seq<VolumeMount>, is_file: Seq<bool>) -> Seq<usize>
    decreases mounts.len(),
{
    if mounts.len() == 0 {
        Seq::empty()
    } else {
        let front = file_positions(mounts.drop_last(), is_file);
        if is_file_mount(mounts.last(), is_file[mounts.len() - 1]) {
            front.push((mounts.len() - 1) as usize)
        } else {
            front
        }
    }
}

/// Finds the mounts that are host files; `is_file` says what is at each mount's host path.
pub fn file_bind_mounts(mounts: &Vec<VolumeMount>, is_file: &Vec<bool>) -> (r: Vec<usize>)
    requires
        is_file@.len() == mounts@.len(),
    ensures
        r@ == file_positions(mounts@, is_file@),
{
    let mut out: Vec<usize> = Vec::new();
    let mut i: usize = 0;
    while i < mounts.len()
        invariant
            i <= mounts@.len(),
            is_file@.len() == mounts@.len(),
            out@ == file_positions(mounts@.take(i as int), is_file@),
        decreases mounts@.len() - i,
    {
        assert(mounts@.take(i + 1).drop_last() =~= mounts@.take(i as int));
        if let VolumeMount::Bind { .. } = &mounts[i] {
            if is_file[i] {
                out.push(i);
            }
        }
        i = i + 1;
    }
    assert(mounts@.take(i as int) =~= mounts@);
    out
}

/// What keeps a host file from being staged, given its name: it has none, or the name holds a
/// delimiter of the guest's mount list.
pub open spec fn staging_failure(host: Seq<char>, name: Option<Seq<char>>) -> Option<ErrorView> {
    match name {
        None => Some(ErrorView::InvalidConfig("file mount has no filename: "@ + host)),
        Some(name) => if name.contains(':') || name.contains(';') {
            Some(
                ErrorView::InvalidConfig(
                    "file mount filename must not contain ':' or ';': "@ + name,
                ),
            )
        } else {
            None
        },
    }
}

fn stage_name(host: &str, name: Option<String>) -> (r: MicrosandboxResult<String>)
    ensures
        match r {
            Ok(kept) => staging_failure(host@, text_of(name)) is None && text_of(name) == Some(
                kept@,
            ),
            Err(e) => staging_failure(host@, text_of(name)) == Some(e@),
        },
{
    let name = match name {
        Some(name) => name,
        None => {
            let mut message = "file mount has no filename: ".to_owned();
            message.append(host);
            return Err(MicrosandboxError::InvalidConfig(message));
        },
    };
    if has_char(name.as_str(), ':') || has_char(name.as_str(), ';') {
        let mut message = "file mount filename must not contain ':' or ';': ".to_owned();
        message.append(name.as_str());
        return Err(MicrosandboxError::InvalidConfig(message));
    }
    Ok(name)
}

/// Where a host file is staged, and under which tag.
pub fn stage_file_mount(host: &str, staging_root: &str, id: u32) -> (r: MicrosandboxResult<
    StagedFileMount,
>)
    ensures
        match r {
            Ok(staged) => {
                &&& staging_failure(host@, file_name(host@)) is None
                &&& staged.tag@ == file_tag(id)
                &&& staged.dir@ == joined(staging_root@, file_tag(id))
                &&& file_name(host@) == Some(staged.filename@)
            },
            Err(e) => staging_failure(host@, file_name(host@)) == Some(e@),
        },
{
    match stage_name(host, path_file_name(host)) {
        Ok(filename) => {
            let tag = file_mount_tag(id);
            let dir = path_join(staging_root, tag.as_str());
            Ok(StagedFileMount { dir, filename, tag })
        },
        Err(e) => Err(e),
    }
}

/// Where a host file is staged on Windows, and under which tag.
pub fn windows_stage_file_mount(host: &str, staging_root: &str, id: u32) -> (r: MicrosandboxResult<
    StagedFileMount,
>)
    ensures
        match r {
            Ok(staged) => {
                &&& staging_failure(host@, windows_name(host@)) is None
                &&& staged.tag@ == file_tag(id)
                &&& staged.dir@ == windows_joined(staging_root@, file_tag(id))
                &&& windows_name(host@) == Some(staged.filename@)
            },
            Err(e) => staging_failure(host@, windows_name(host@)) == Some(e@),
        },
{
    match stage_name(host, windows_file_name(host)) {
        Ok(filename) => {
            let tag = file_mount_tag(id);
            let dir = windows_join(staging_root, tag.as_str());
            Ok(StagedFileMount { dir, filename, tag })
        },
        Err(e) => Err(e),
    }
}

/// The name of a host file on a host.
pub open spec fn host_name(host: Seq<char>, windows: bool) -> Option<Seq<char>> {
    if windows {
        windows_name(host)
    } else {
        file_name(host)
    }
}

/// A staged file by its text: directory, name and tag.
pub struct StagedView {
    pub dir: Seq<char>,
    pub filename: Seq<char>,
    pub tag: Seq<char>,
}

/// A staged file by its text.
pub open spec fn staged_view(staged: StagedFileMount) -> StagedView {
    StagedView { dir: staged.dir@, filename: staged.filename@, tag: staged.tag@ }
}

/// The first reason why a host file of a sandbox cannot be staged.
pub open spec fn staging_refusal(
    mounts: Seq<VolumeMount>,
    is_file: Seq<bool>,
    windows: bool,
) -> Option<ErrorView>
    decreases mounts.len(),
{
    if mounts.len() == 0 {
        None
    } else {
        let front = staging_refusal(mounts.drop_last(), is_file, windows);
        if front is Some {
            front
        } else if is_file_mount(mounts.last(), is_file[mounts.len() - 1]) {
            let host = mounts.last()->Bind_host@;
            staging_failure(host, host_name(host, windows))
        } else {
            None
        }
    }
}

/// The staged files of a sandbox by their guest paths. Of two for one path the later counts.
pub open spec fn staged_files(
    mounts: Seq<VolumeMount>,
    is_file: Seq<bool>,
    ids: Seq<u32>,
    root: Seq<char>,
    windows: bool,
) -> Map<Seq<char>, StagedView>
    decreases mounts.len(),
{
    if mounts.len() == 0 {
        Map::empty()
    } else {
        let front = staged_files(mounts.drop_last(), is_file, ids, root, windows);
        let last = mounts.len() - 1;
        if is_file_mount(mounts.last(), is_file[last]) {
            front.insert(
                mounts.last()->Bind_guest@,
                StagedView {
                    dir: host_joined(root, file_tag(ids[last]), windows),
                    filename: host_name(mounts.last()->Bind_host@, windows)->0,
                    tag: file_tag(ids[last]),
                },
            )
        } else {
            front
        }
    }
}

/// Decides where the host files of a sandbox are staged, by guest path. `is_file` says what is at
/// each mount's host path, and `ids` gives each mount the number of its tag.
pub fn stage_file_mounts(
    mounts: &Vec<VolumeMount>,
    is_file: &Vec<bool>,
    ids: &Vec<u32>,
    staging_root: &str,
    windows: bool,
) -> (r: MicrosandboxResult<NameMap<StagedFileMount>>)
    requires
        is_file@.len() == mounts@.len(),
        ids@.len() == mounts@.len(),
    ensures
        failure(r) == staging_refusal(mounts@, is_file@, windows),
        r matches Ok(map) ==> map@.map_values(|staged: StagedFileMount| staged_view(staged))
            == staged_files(mounts@, is_file@, ids@, staging_root@, windows),
{
    let ghost seen = |staged: StagedFileMount| staged_view(staged);
    let mut map: NameMap<StagedFileMount> = NameMap::new();
    assert(map@.map_values(seen) =~= Map::empty());
    let mut i: usize = 0;
    while i < mounts.len()
        invariant
            i <= mounts@.len(),
            is_file@.len() == mounts@.len(),
            ids@.len() == mounts@.len(),
            seen == (|staged: StagedFileMount| staged_view(staged)),
            staging_refusal(mounts@.take(i as int), is_file@, windows) is None,
            map@.map_values(seen) == staged_files(
                mounts@.take(i as int),
                is_file@,
                ids@,
                staging_root@,
                windows,
            ),
        decreases mounts@.len() - i,
    {
        assert(mounts@.take(i + 1).drop_last() =~= mounts@.take(i as int));
        assert(mounts@.take(i + 1).last() == mounts@[i as int]);
        if let VolumeMount::Bind { host, guest, .. } = &mounts[i] {
            if is_file[i] {
                let staged = if windows {
                    windows_stage_file_mount(host.as_str(), staging_root, ids[i])
                } else {
                    stage_file_mount(host.as_str(), staging_root, ids[i])
                };
                match staged {
                    Ok(staged) => {
                        let ghost before = map@;
                        map = map.with(guest.clone(), staged);
                        assert(map@.map_values(seen) =~= before.map_values(seen).insert(
                            guest@,
                            staged_view(staged),
                        ));
                    },
                    Err(e) => {
                        proof {
                            lemma_refusals_stay(mounts@, is_file@, windows, i + 1);
                        }
                        return Err(e);
                    },
                }
            }
        }
        i = i + 1;
    }
    assert(mounts@.take(i as int) =~= mounts@);
    Ok(map)
}

proof fn lemma_refusals_stay(mounts: Seq<VolumeMount>, is_file: Seq<bool>, windows: bool, n: int)
    requires
        0 <= n <= mounts.len(),
        staging_refusal(mounts.take(n), is_file, windows) is Some,
    ensures
        staging_refusal(mounts, is_file, windows) == staging_refusal(
            mounts.take(n),
            is_file,
            windows,
        ),
    decreases mounts.len() - n,
{
    if n < mounts.len() {
        assert(mounts.take(n + 1).drop_last() =~= mounts.take(n));
        lemma_refusals_stay(mounts, is_file, windows, n + 1);
    } else {
        assert(mounts.take(n) =~= mounts);
    }
}

/// How a staged file gets its contents.
#[derive(Clone, Copy, Debug, PartialEq, Eq, Structural)]
pub enum Staging {
    /// It is the host file itself: writes reach the host.
    Linked,
    /// It is a copy: writes stay in the guest.
    Copy,
    /// It cannot be staged.
    Failed(IoError),
}

/// What follows an attempt to link the host file; only another device calls for a copy.
pub fn after_link(linked: Result<(), IoError>, platform_code: Option<i32>) -> (r: Staging)
    ensures
        r == match linked {
            Ok(()) => Staging::Linked,
            Err(e) => if crosses_devices(e, platform_code) {
                Staging::Copy
            } else {
                Staging::Failed(e)
            },
        },
{
    match linked {
        Ok(()) => Staging::Linked,
        Err(e) => {
            if is_cross_device_link_error(e, platform_code) {
                Staging::Copy
            } else {
                Staging::Failed(e)
            }
        },
    }
}

/// The host files among the mounts are found, each at its place and in order, and nothing else is.
pub proof fn host_files_are_found(mounts: Seq<VolumeMount>, is_file: Seq<bool>)
    requires
        is_file.len() >= mounts.len(),
        mounts.len() <= usize::MAX,
    ensures
        forall|i: int|
            0 <= i < mounts.len() ==> (file_positions(mounts, is_file).contains(i as usize)
                <==> #[trigger] mounts[i] is Bind && is_file[i]),
        forall|k: int|
            0 <= k < file_positions(mounts, is_file).len() ==> (#[trigger] file_positions(
                mounts,
                is_file,
            )[k]) < mounts.len(),
        forall|k: int, m: int|
            0 <= k < m < file_positions(mounts, is_file).len() ==> (#[trigger] file_positions(
                mounts,
                is_file,
            )[k]) < #[trigger] file_positions(mounts, is_file)[m],
    decreases mounts.len(),
{
    if mounts.len() > 0 {
        let before = mounts.drop_last();
        let last = mounts.len() - 1;
        host_files_are_found(before, is_file);
        let front = file_positions(before, is_file);
        let all = file_positions(mounts, is_file);
        assert forall|i: int| 0 <= i < mounts.len() implies (all.contains(i as usize)
            <==> #[trigger] mounts[i] is Bind && is_file[i]) by {
            if i < last {
                assert(before[i] == mounts[i]);
                if front.contains(i as usize) {
                    let k = choose|k: int| 0 <= k < front.len() && front[k] == i as usize;
                    assert(all[k] == i as usize);
                }
                if all.contains(i as usize) {
                    let k = choose|k: int| 0 <= k < all.len() && all[k] == i as usize;
                    assert(front[k] == i as usize);
                }
            } else {
                if is_file_mount(mounts.last(), is_file[last]) {
                    assert(all[front.len() as int] == last as usize);
                } else if all.contains(i as usize) {
                    let k = choose|k: int| 0 <= k < all.len() && all[k] == i as usize;
                    assert(front[k] < last);
                }
            }
        }
    }
}

/// A host file can be staged exactly where it has a name and the name holds no delimiter of the
/// guest's mount list.
pub proof fn names_can_be_listed(host: Seq<char>, name: Option<Seq<char>>)
    ensures
        staging_failure(host, name) is None <==> name is Some && !name->0.contains(':')
            && !name->0.contains(';'),
{
}

/// A number is kept by its bytes, the highest first.
pub proof fn high_bytes_keep_the_number(n: u32)
    ensures
        high_bytes_first(n).len() == 4,
        high_bytes_first(n)[3] as int + 256 * high_bytes_first(n)[2] as int + 65536
            * high_bytes_first(n)[1] as int + 16777216 * high_bytes_first(n)[0] as int == n,
{
    let b = high_bytes_first(n);
    assert(b[0] == n / 16777216);
    assert(b[1] == (n / 65536) % 256);
    assert(b[2] == (n / 256) % 256);
    assert(b[3] == n % 256);
}

/// Each staged file has a tag of its own number: different numbers have different tags.
pub proof fn tags_keep_their_number(a: u32, b: u32)
    requires
        file_tag(a) == file_tag(b),
    ensures
        a == b,
{
    reveal_strlit("fm_");
    let front = "fm_"@;
    let x = hex(high_bytes_first(a));
    let y = hex(high_bytes_first(b));
    assert(front.len() == 3);
    assert(x =~= (front + x).skip(3));
    assert(y =~= (front + y).skip(3));
    crate::text::hex_tells_bytes_apart(high_bytes_first(a), high_bytes_first(b));
    high_bytes_keep_the_number(a);
    high_bytes_keep_the_number(b);
}

/// The tag of a staged file begins with its mark and goes on with eight digits.
pub proof fn tags_have_eight_digits(a: u32)
    ensures
        file_tag(a).len() == 11,
        file_tag(a).take(3) == seq!['f', 'm', '_'],
        file_tag(a).skip(3) == hex(high_bytes_first(a)),
{
    reveal_strlit("fm_");
    let front = "fm_"@;
    let x = hex(high_bytes_first(a));
    assert(x.len() == 8);
    assert((front + x).take(3) =~= seq!['f', 'm', '_']);
    assert((front + x).skip(3) =~= x);
}

/// Adding a mount stages it exactly where it is a host file: under its guest path, in the directory
/// of its own tag, under its own name; and every other file stays where it is.
pub proof fn files_are_staged_one_by_one(
    mounts: Seq<VolumeMount>,
    mount: VolumeMount,
    is_file: Seq<bool>,
    ids: Seq<u32>,
    root: Seq<char>,
    windows: bool,
)
    ensures
        ({
            let n = mounts.len() as int;
            let before = staged_files(mounts, is_file, ids, root, windows);
            let after = staged_files(mounts.push(mount), is_file, ids, root, windows);
            &&& !(mount is Bind && is_file[n]) ==> after == before
            &&& mount is Bind && is_file[n] ==> {
                let guest = mount->Bind_guest@;
                let host = mount->Bind_host@;
                &&& after.dom().contains(guest)
                &&& after[guest].tag == file_tag(ids[n])
                &&& after[guest].dir == host_joined(root, file_tag(ids[n]), windows)
                &&& after[guest].filename == if windows {
                    windows_name(host)->0
                } else {
                    file_name(host)->0
                }
                &&& forall|other: Seq<char>|
                    other != guest ==> (#[trigger] after.dom().contains(other)
                        <==> before.dom().contains(other)) && (before.dom().contains(other)
                        ==> after[other] == before[other])
            }
        }),
        ({
            let n = mounts.len() as int;
            let before = staging_refusal(mounts, is_file, windows);
            let after = staging_refusal(mounts.push(mount), is_file, windows);
            &&& before is Some ==> after == before
            &&& before is None && !(mount is Bind && is_file[n]) ==> after is None
            &&& before is None && mount is Bind && is_file[n] ==> after == staging_failure(
                mount->Bind_host@,
                if windows {
                    windows_name(mount->Bind_host@)
                } else {
                    file_name(mount->Bind_host@)
                },
            )
        }),
        staged_files(Seq::empty(), is_file, ids, root, windows) == Map::<
            Seq<char>,
            StagedView,
        >::empty(),
{
    assert(mounts.push(mount).drop_last() =~= mounts);
}

/// A file that cannot be staged is refused with the reason: no name, or one that a list of mounts
/// could not hold.
pub proof fn refused_files_say_why(host: Seq<char>, name: Seq<char>)
    ensures
        staging_failure(host, None) == Some(
            ErrorView::InvalidConfig("file mount has no filename: "@ + host),
        ),
        name.contains(':') || name.contains(';') ==> staging_failure(host, Some(name)) == Some(
            ErrorView::InvalidConfig(
                "file mount filename must not contain ':' or ';': "@ + name,
            ),
        ),
        !name.contains(':') && !name.contains(';') ==> staging_failure(host, Some(name)) is None,
{
}

} // verus!
