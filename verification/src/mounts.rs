//! Guest mounts as the sandbox process and the guest agent read them.

use vstd::prelude::*;
use vstd::utf8::encode_utf8;

use crate::outside::{sha256, sha256_digest};
use crate::paths::{lemma_split_join, lemma_split_more, lemma_split_one, split};
use crate::text::{
    chars_of, decimal, decimal_text, hex, hex_tells_bytes_apart, hex_text, is_digit, join, join_text, lemma_decimal_value,
    has_suffix, lemma_utf8_len_concat, natural_value, utf8_len, utf8_width, views,
};
use crate::types::{
    DiskImageFormat, HostPermissions, MountOptions, Rlimit, RlimitResource, StatVirtualization,
    VolumeKind,
};

verus! {

/// The most bytes of a mount tag that come from the guest path itself.
pub const SLUG_MAX: usize = 11;

/// The most bytes of a mount tag: the length limit of a virtio-blk serial.
pub const TAG_MAX: usize = 20;

/// A guest file that was staged in a directory of its own.
pub struct StagedFileMount {
    pub dir: String,
    pub filename: String,
    pub tag: String,
}

/// Storage of a named volume that a sandbox mounts.
pub struct ResolvedNamedVolume {
    pub kind: VolumeKind,
    pub path: String,
    pub format: Option<DiskImageFormat>,
    pub fstype: Option<String>,
    pub quota_mib: Option<u32>,
}

/// The token, where the condition holds.
pub open spec fn when(condition: bool, token: Seq<char>) -> Seq<Seq<char>> {
    if condition {
        seq![token]
    } else {
        Seq::empty()
    }
}

/// The guest path with every `/` written as `_`.
pub open spec fn mangled(guest: Seq<char>) -> Seq<char> {
    guest.map_values(|c: char| if c == '/' { '_' } else { c })
}

/// The text after its leading `_` characters.
pub open spec fn unpadded(s: Seq<char>) -> Seq<char>
    decreases s.len(),
{
    if s.len() > 0 && s[0] == '_' {
        unpadded(s.drop_first())
    } else {
        s
    }
}

/// The longest beginning of the text whose encoding fits in `budget` bytes.
pub open spec fn fitting(s: Seq<char>, budget: int) -> Seq<char>
    decreases s.len(),
{
    if s.len() == 0 || utf8_len(seq![s[0]]) > budget {
        Seq::empty()
    } else {
        seq![s[0]] + fitting(s.drop_first(), budget - utf8_len(seq![s[0]]))
    }
}

/// The readable part of a mount tag.
pub open spec fn slug(guest: Seq<char>) -> Seq<char> {
    fitting(unpadded(mangled(guest)), SLUG_MAX as int)
}

/// A mount tag: the readable part, if there is any, and eight hexadecimal digits of a digest.
pub open spec fn tag_with_digest(guest: Seq<char>, digest: Seq<u8>) -> Seq<char> {
    let hash = hex(digest.take(4));
    if slug(guest).len() == 0 {
        hash
    } else {
        slug(guest).push('_') + hash
    }
}

/// The mount tag of a guest path.
pub open spec fn mount_tag(guest: Seq<char>) -> Seq<char> {
    tag_with_digest(guest, sha256_digest(encode_utf8(guest)))
}

/// The tokens of the mount options that are set.
pub open spec fn option_tokens(options: MountOptions) -> Seq<Seq<char>> {
    when(options.readonly, "ro"@) + when(options.noexec, "noexec"@) + when(
        options.nosuid,
        "nosuid"@,
    ) + when(options.nodev, "nodev"@)
}

/// The tokens of the sharing policies that differ from the default.
pub open spec fn policy_tokens(
    stat_virtualization: StatVirtualization,
    host_permissions: HostPermissions,
) -> Seq<Seq<char>> {
    (match stat_virtualization {
        StatVirtualization::Strict => Seq::empty(),
        StatVirtualization::Relaxed => seq!["stat-virt=relaxed"@],
        StatVirtualization::Off => seq!["stat-virt=off"@],
    }) + (match host_permissions {
        HostPermissions::Private => Seq::empty(),
        HostPermissions::Mirror => seq!["host-perms=mirror"@],
    })
}

/// The token of a size, where there is one.
pub open spec fn size_token(key: Seq<char>, mib: Option<u32>) -> Seq<Seq<char>> {
    match mib {
        Some(n) => seq![key + decimal(n as nat)],
        None => Seq::empty(),
    }
}

/// The token of a filesystem type, where there is one.
pub open spec fn fstype_token(fstype: Option<Seq<char>>) -> Seq<Seq<char>> {
    match fstype {
        Some(fs) => seq!["fstype="@ + fs],
        None => Seq::empty(),
    }
}

/// The options of an entry: nothing without tokens, else a colon and the tokens with commas.
pub open spec fn option_block(tokens: Seq<Seq<char>>) -> Seq<char> {
    if tokens.len() == 0 {
        Seq::empty()
    } else {
        ":"@ + join(tokens, ","@)
    }
}

/// The shared-directory argument of a guest path.
pub open spec fn dir_mount_arg(
    guest: Seq<char>,
    host: Seq<char>,
    options: MountOptions,
    stat_virtualization: StatVirtualization,
    host_permissions: HostPermissions,
    quota_mib: Option<u32>,
) -> Seq<char> {
    mount_tag(guest) + ":"@ + host + option_block(
        option_tokens(options) + policy_tokens(stat_virtualization, host_permissions) + size_token(
            "quota="@,
            quota_mib,
        ),
    )
}

/// The shared-directory argument of a staged file.
pub open spec fn file_mount_arg(
    tag: Seq<char>,
    dir: Seq<char>,
    options: MountOptions,
    stat_virtualization: StatVirtualization,
    host_permissions: HostPermissions,
) -> Seq<char> {
    tag + ":"@ + dir + option_block(
        option_tokens(options) + policy_tokens(stat_virtualization, host_permissions),
    )
}

/// The disk argument of an image.
pub open spec fn disk_mount_arg(
    id: Seq<char>,
    host: Seq<char>,
    format: DiskImageFormat,
    options: MountOptions,
) -> Seq<char> {
    id + ":"@ + host + ":"@ + format.text() + (if options.readonly {
        ":ro"@
    } else {
        Seq::empty()
    })
}

/// The guest's entry for a shared directory.
pub open spec fn dir_entry(guest: Seq<char>, options: MountOptions) -> Seq<char> {
    mount_tag(guest) + ":"@ + guest + option_block(option_tokens(options))
}

/// The guest's entry for a staged file.
pub open spec fn file_entry(
    tag: Seq<char>,
    filename: Seq<char>,
    guest: Seq<char>,
    options: MountOptions,
) -> Seq<char> {
    tag + ":"@ + filename + ":"@ + guest + option_block(option_tokens(options))
}

/// The guest's entry for a disk.
pub open spec fn disk_entry(
    id: Seq<char>,
    guest: Seq<char>,
    fstype: Option<Seq<char>>,
    options: MountOptions,
) -> Seq<char> {
    id + ":"@ + guest + option_block(option_tokens(options) + fstype_token(fstype))
}

/// The guest's entry for memory.
pub open spec fn tmpfs_entry(
    guest: Seq<char>,
    size_mib: Option<u32>,
    options: MountOptions,
) -> Seq<char> {
    guest + option_block(size_token("size="@, size_mib) + option_tokens(options))
}

/// A list of entries with one more at its end; entries are separated by semicolons.
pub open spec fn listed(list: Seq<char>, entry: Seq<char>) -> Seq<char> {
    if list.len() == 0 {
        entry
    } else {
        list + ";"@ + entry
    }
}

/// The text of an optional string.
pub open spec fn text_of(s: Option<String>) -> Option<Seq<char>> {
    match s {
        Some(t) => Some(t@),
        None => None,
    }
}

/// A limit as the guest reads it.
pub open spec fn rlimit_entry(limit: Rlimit) -> Seq<char> {
    limit.resource.text() + "="@ + decimal(limit.soft as nat) + ":"@ + decimal(limit.hard as nat)
}

/// Limits as the guest reads them, separated by semicolons.
pub open spec fn rlimits_text(limits: Seq<Rlimit>) -> Seq<char> {
    join(limits.map_values(|l: Rlimit| rlimit_entry(l)), ";"@)
}

/// What a limit is written with besides digits and letters is only what separates its parts.
proof fn lemma_resource_text(resource: RlimitResource)
    ensures
        forall|i: int|
            0 <= i < resource.text().len() ==> 'a' <= #[trigger] resource.text()[i] <= 'z',
{
    match resource {
        RlimitResource::Cpu => {
            reveal_strlit("cpu");
        },
        RlimitResource::Fsize => {
            reveal_strlit("fsize");
        },
        RlimitResource::Data => {
            reveal_strlit("data");
        },
        RlimitResource::Stack => {
            reveal_strlit("stack");
        },
        RlimitResource::Core => {
            reveal_strlit("core");
        },
        RlimitResource::Rss => {
            reveal_strlit("rss");
        },
        RlimitResource::Nproc => {
            reveal_strlit("nproc");
        },
        RlimitResource::Nofile => {
            reveal_strlit("nofile");
        },
        RlimitResource::Memlock => {
            reveal_strlit("memlock");
        },
        RlimitResource::As => {
            reveal_strlit("as");
        },
        RlimitResource::Locks => {
            reveal_strlit("locks");
        },
        RlimitResource::Sigpending => {
            reveal_strlit("sigpending");
        },
        RlimitResource::Msgqueue => {
            reveal_strlit("msgqueue");
        },
        RlimitResource::Nice => {
            reveal_strlit("nice");
        },
        RlimitResource::Rtprio => {
            reveal_strlit("rtprio");
        },
        RlimitResource::Rttime => {
            reveal_strlit("rttime");
        },
    }
}

proof fn lemma_decimal_digits(n: nat)
    ensures
        forall|i: int| 0 <= i < decimal(n).len() ==> '0' <= #[trigger] decimal(n)[i] <= '9',
        natural_value(decimal(n)) == Some(n),
{
    lemma_decimal_value(n);
    assert forall|i: int| 0 <= i < decimal(n).len() implies '0' <= #[trigger] decimal(n)[i]
        <= '9' by {
        assert(is_digit(decimal(n)[i]));
    }
}

/// Limits can be read back: their text comes apart into one entry per limit, an entry into the
/// resource and its two numbers.
pub proof fn limits_read_back(limits: Seq<Rlimit>)
    requires
        limits.len() > 0,
    ensures
        split(rlimits_text(limits), ';') == limits.map_values(|l: Rlimit| rlimit_entry(l)),
        forall|i: int|
            0 <= i < limits.len() ==> {
                let limit = #[trigger] limits[i];
                let numbers = decimal(limit.soft as nat) + seq![':'] + decimal(limit.hard as nat);
                &&& split(rlimit_entry(limit), '=') == seq![limit.resource.text(), numbers]
                &&& split(numbers, ':') == seq![
                    decimal(limit.soft as nat),
                    decimal(limit.hard as nat),
                ]
                &&& natural_value(decimal(limit.soft as nat)) == Some(limit.soft as nat)
                &&& natural_value(decimal(limit.hard as nat)) == Some(limit.hard as nat)
            },
{
    let entries = limits.map_values(|l: Rlimit| rlimit_entry(l));
    reveal_strlit(";");
    reveal_strlit("=");
    reveal_strlit(":");
    assert(";"@ =~= seq![';']);
    assert("="@ =~= seq!['=']);
    assert(":"@ =~= seq![':']);
    assert forall|k: int, i: int|
        0 <= k < entries.len() && 0 <= i < entries[k].len() implies #[trigger] entries[k][i]
        != ';' by {
        lemma_entry(limits[k]);
        assert(entries[k] == rlimit_entry(limits[k]));
    }
    lemma_split_join(entries, ';');
    assert forall|i: int| 0 <= i < limits.len() implies {
        let limit = #[trigger] limits[i];
        let numbers = decimal(limit.soft as nat) + seq![':'] + decimal(limit.hard as nat);
        &&& split(rlimit_entry(limit), '=') == seq![limit.resource.text(), numbers]
        &&& split(numbers, ':') == seq![decimal(limit.soft as nat), decimal(limit.hard as nat)]
        &&& natural_value(decimal(limit.soft as nat)) == Some(limit.soft as nat)
        &&& natural_value(decimal(limit.hard as nat)) == Some(limit.hard as nat)
    } by {
        let limit = limits[i];
        let soft = decimal(limit.soft as nat);
        let hard = decimal(limit.hard as nat);
        let numbers = soft + seq![':'] + hard;
        lemma_resource_text(limit.resource);
        lemma_decimal_digits(limit.soft as nat);
        lemma_decimal_digits(limit.hard as nat);
        lemma_split_one(limit.resource.text(), '=');
        lemma_split_more(limit.resource.text(), '=', numbers);
        assert(rlimit_entry(limit) =~= limit.resource.text() + seq!['='] + numbers);
        assert(split(rlimit_entry(limit), '=') =~= seq![limit.resource.text(), numbers]);
        lemma_split_one(soft, ':');
        lemma_split_more(soft, ':', hard);
        assert(split(numbers, ':') =~= seq![soft, hard]);
    }
}

proof fn lemma_entry(limit: Rlimit)
    ensures
        forall|i: int| 0 <= i < rlimit_entry(limit).len() ==> rlimit_entry(limit)[i] != ';',
{
    reveal_strlit("=");
    reveal_strlit(":");
    lemma_resource_text(limit.resource);
    lemma_decimal_digits(limit.soft as nat);
    lemma_decimal_digits(limit.hard as nat);
}

proof fn lemma_fitting_len(s: Seq<char>, budget: int)
    requires
        budget >= 0,
    ensures
        utf8_len(fitting(s, budget)) <= budget,
    decreases s.len(),
{
    if s.len() > 0 && utf8_len(seq![s[0]]) <= budget {
        let w = utf8_len(seq![s[0]]) as int;
        lemma_fitting_len(s.drop_first(), budget - w);
        lemma_utf8_len_concat(seq![s[0]], fitting(s.drop_first(), budget - w));
    }
}

proof fn lemma_ascii_len(s: Seq<char>)
    requires
        forall|i: int| 0 <= i < s.len() ==> '\0' <= #[trigger] s[i] <= '\u{7f}',
    ensures
        utf8_len(s) == s.len(),
{
    assert(vstd::utf8::is_ascii_chars(s));
    vstd::utf8::is_ascii_chars_encode_utf8(s);
}

/// A mount tag never takes more bytes than a virtio-blk serial holds, whatever the guest path.
pub proof fn mount_tag_fits(guest: Seq<char>, digest: Seq<u8>)
    requires
        digest.len() >= 4,
    ensures
        utf8_len(tag_with_digest(guest, digest)) <= TAG_MAX,
{
    let hash = hex(digest.take(4));
    let front = slug(guest);
    lemma_fitting_len(unpadded(mangled(guest)), SLUG_MAX as int);
    lemma_ascii_len(hash);
    if front.len() > 0 {
        lemma_ascii_len(seq!['_']);
        assert(front.push('_') =~= front + seq!['_']);
        lemma_utf8_len_concat(front, seq!['_']);
        lemma_utf8_len_concat(front.push('_'), hash);
    }
}

/// Mounts whose digests begin differently have different tags, however alike their paths look.
pub proof fn tags_tell_digests_apart(
    guest_a: Seq<char>,
    digest_a: Seq<u8>,
    guest_b: Seq<char>,
    digest_b: Seq<u8>,
)
    requires
        digest_a.len() >= 4,
        digest_b.len() >= 4,
        digest_a.take(4) != digest_b.take(4),
    ensures
        tag_with_digest(guest_a, digest_a) != tag_with_digest(guest_b, digest_b),
{
    let a = tag_with_digest(guest_a, digest_a);
    let b = tag_with_digest(guest_b, digest_b);
    let hash_a = hex(digest_a.take(4));
    let hash_b = hex(digest_b.take(4));
    assert(a.skip(a.len() - 8) =~= hash_a);
    assert(b.skip(b.len() - 8) =~= hash_b);
    if a == b {
        hex_tells_bytes_apart(digest_a.take(4), digest_b.take(4));
    }
}

/// The mount tag of a guest path with the given digest.
pub fn tag_from_digest(guest_path: &str, digest: &[u8]) -> (r: String)
    requires
        digest@.len() >= 4,
    ensures
        r@ == tag_with_digest(guest_path@, digest@),
        utf8_len(r@) <= TAG_MAX,
{
    let chars = chars_of(guest_path);
    let mut name: Vec<char> = Vec::new();
    let mut i: usize = 0;
    while i < chars.len()
        invariant
            i <= chars@.len(),
            chars@ == guest_path@,
            name@ == mangled(guest_path@).take(i as int),
        decreases chars@.len() - i,
    {
        name.push(if chars[i] == '/' { '_' } else { chars[i] });
        i = i + 1;
        assert(name@ =~= mangled(guest_path@).take(i as int));
    }
    assert(name@ =~= mangled(guest_path@));
    let mut start: usize = 0;
    assert(name@.skip(0) =~= name@);
    while start < name.len() && name[start] == '_'
        invariant
            start <= name@.len(),
            unpadded(name@) == unpadded(name@.skip(start as int)),
        decreases name@.len() - start,
    {
        assert(name@.skip(start as int).drop_first() =~= name@.skip(start + 1));
        start = start + 1;
    }
    let ghost body = unpadded(mangled(guest_path@));
    assert(body =~= name@.skip(start as int));
    let mut out = String::new();
    let mut budget: usize = SLUG_MAX;
    let mut k: usize = start;
    assert(name@.skip(start as int) =~= body);
    assert(out@ + fitting(body, SLUG_MAX as int) =~= fitting(body, SLUG_MAX as int));
    while k < name.len()
        invariant_except_break
            slug(guest_path@) == out@ + fitting(name@.skip(k as int), budget as int),
        invariant
            start <= k <= name@.len(),
            budget <= SLUG_MAX,
        ensures
            slug(guest_path@) == out@,
        decreases name@.len() - k,
    {
        let width = utf8_width(name[k]);
        let ghost rest = name@.skip(k as int);
        assert(rest[0] == name@[k as int]);
        if width > budget {
            assert(out@ + Seq::<char>::empty() =~= out@);
            break;
        }
        let ghost before = out@;
        out.push(name[k]);
        budget = budget - width;
        k = k + 1;
        assert(rest.drop_first() =~= name@.skip(k as int));
        assert(before + (seq![rest[0]] + fitting(rest.drop_first(), budget as int)) =~= out@
            + fitting(name@.skip(k as int), budget as int));
        if k == name.len() {
            assert(fitting(name@.skip(k as int), budget as int) =~= Seq::<char>::empty());
            assert(out@ + Seq::<char>::empty() =~= out@);
        }
    }
    if !out.as_str().is_empty() {
        out.push('_');
    }
    let mut head: Vec<u8> = Vec::new();
    let mut j: usize = 0;
    while j < 4
        invariant
            j <= 4 <= digest@.len(),
            head@ == digest@.take(j as int),
        decreases 4 - j,
    {
        head.push(digest[j]);
        j = j + 1;
        assert(head@ =~= digest@.take(j as int));
    }
    let ghost before = out@;
    let hash = hex_text(head.as_slice());
    out.append(hash.as_str());
    proof {
        if slug(guest_path@).len() == 0 {
            assert(before + hash@ =~= hash@);
        }
        mount_tag_fits(guest_path@, digest@);
    }
    out
}

/// Derives a stable tag from a guest mount path, for shared directories and disk serials.
///
/// Replacing `/` alone would give `/var/log` and `/var_log` the same tag, so eight digits of the
/// path's digest follow the readable part.
pub fn guest_mount_tag(guest_path: &str) -> (r: String)
    ensures
        r@ == mount_tag(guest_path@),
        utf8_len(r@) <= TAG_MAX,
{
    let digest = sha256(guest_path.as_bytes());
    tag_from_digest(guest_path, digest.as_slice())
}

/// The tokens of the mount options that are set.
pub fn mount_option_tokens(options: MountOptions) -> (r: Vec<String>)
    ensures
        views(r@) == option_tokens(options),
{
    let mut tokens: Vec<String> = Vec::new();
    if options.readonly {
        tokens.push("ro".to_owned());
    }
    if options.noexec {
        tokens.push("noexec".to_owned());
    }
    if options.nosuid {
        tokens.push("nosuid".to_owned());
    }
    if options.nodev {
        tokens.push("nodev".to_owned());
    }
    assert(views(tokens@) =~= option_tokens(options));
    tokens
}

/// Appends the tokens of the sharing policies that differ from the default.
pub fn append_policy_options(
    opts: &mut Vec<String>,
    stat_virtualization: StatVirtualization,
    host_permissions: HostPermissions,
)
    ensures
        views(final(opts)@) == views(old(opts)@) + policy_tokens(
            stat_virtualization,
            host_permissions,
        ),
{
    match stat_virtualization {
        StatVirtualization::Strict => {},
        StatVirtualization::Relaxed => opts.push("stat-virt=relaxed".to_owned()),
        StatVirtualization::Off => opts.push("stat-virt=off".to_owned()),
    }
    match host_permissions {
        HostPermissions::Private => {},
        HostPermissions::Mirror => opts.push("host-perms=mirror".to_owned()),
    }
    assert(views(opts@) =~= views(old(opts)@) + policy_tokens(
        stat_virtualization,
        host_permissions,
    ));
}

/// Appends the token of a size, where there is one.
fn append_size(opts: &mut Vec<String>, key: &str, mib: Option<u32>)
    ensures
        views(final(opts)@) == views(old(opts)@) + size_token(key@, mib),
{
    if let Some(n) = mib {
        let mut token = key.to_owned();
        token.append(decimal_text(n as u64).as_str());
        opts.push(token);
    }
    assert(views(opts@) =~= views(old(opts)@) + size_token(key@, mib));
}

/// Appends the options of an entry.
pub fn append_option_block(spec: &mut String, opts: Vec<String>)
    ensures
        final(spec)@ == old(spec)@ + option_block(views(opts@)),
{
    if opts.len() == 0 {
        assert(spec@ + Seq::<char>::empty() =~= spec@);
        return ;
    }
    spec.append(":");
    let joined = join_text(&opts, ",");
    spec.append(joined.as_str());
    assert(spec@ =~= old(spec)@ + option_block(views(opts@)));
}

/// Collects the shared-directory argument of a guest path.
pub fn push_dir_mount_arg(
    mounts: &mut Vec<String>,
    guest: &str,
    host_display: &str,
    options: MountOptions,
    stat_virtualization: StatVirtualization,
    host_permissions: HostPermissions,
    quota_mib: Option<u32>,
)
    ensures
        views(final(mounts)@) == views(old(mounts)@).push(
            dir_mount_arg(
                guest@,
                host_display@,
                options,
                stat_virtualization,
                host_permissions,
                quota_mib,
            ),
        ),
{
    let mut arg = guest_mount_tag(guest);
    arg.append(":");
    arg.append(host_display);
    let mut opts = mount_option_tokens(options);
    append_policy_options(&mut opts, stat_virtualization, host_permissions);
    append_size(&mut opts, "quota=", quota_mib);
    append_option_block(&mut arg, opts);
    let ghost text = arg@;
    mounts.push(arg);
    assert(views(mounts@) =~= views(old(mounts)@).push(text));
}

/// Appends the guest's entry for a shared directory.
pub fn push_dir_mounts_spec(dir_mounts_val: &mut String, guest: &str, options: MountOptions)
    ensures
        final(dir_mounts_val)@ == listed(old(dir_mounts_val)@, dir_entry(guest@, options)),
{
    if !dir_mounts_val.as_str().is_empty() {
        dir_mounts_val.append(";");
    }
    dir_mounts_val.append(guest_mount_tag(guest).as_str());
    dir_mounts_val.append(":");
    dir_mounts_val.append(guest);
    append_option_block(dir_mounts_val, mount_option_tokens(options));
    assert(dir_mounts_val@ =~= listed(old(dir_mounts_val)@, dir_entry(guest@, options)));
}

/// Collects the shared-directory argument of a staged file.
pub fn push_file_mount_arg(
    mounts: &mut Vec<String>,
    tag: &str,
    file_mount_dir: &str,
    options: MountOptions,
    stat_virtualization: StatVirtualization,
    host_permissions: HostPermissions,
)
    ensures
        views(final(mounts)@) == views(old(mounts)@).push(
            file_mount_arg(
                tag@,
                file_mount_dir@,
                options,
                stat_virtualization,
                host_permissions,
            ),
        ),
{
    let mut arg = tag.to_owned();
    arg.append(":");
    arg.append(file_mount_dir);
    let mut opts = mount_option_tokens(options);
    append_policy_options(&mut opts, stat_virtualization, host_permissions);
    append_option_block(&mut arg, opts);
    let ghost text = arg@;
    mounts.push(arg);
    assert(views(mounts@) =~= views(old(mounts)@).push(text));
}

/// Collects the disk argument of an image.
pub fn push_disk_mount_arg(
    disks: &mut Vec<String>,
    id: &str,
    host_display: &str,
    format: &DiskImageFormat,
    options: MountOptions,
)
    ensures
        views(final(disks)@) == views(old(disks)@).push(
            disk_mount_arg(id@, host_display@, *format, options),
        ),
{
    let mut arg = id.to_owned();
    arg.append(":");
    arg.append(host_display);
    arg.append(":");
    arg.append(format.as_str());
    if options.readonly {
        arg.append(":ro");
    }
    assert(arg@ =~= disk_mount_arg(id@, host_display@, *format, options));
    let ghost text = arg@;
    disks.push(arg);
    assert(views(disks@) =~= views(old(disks)@).push(text));
}

/// Appends the guest's entry for a disk.
pub fn push_disk_mounts_spec(
    disk_mounts_val: &mut String,
    id: &str,
    guest: &str,
    fstype: Option<&str>,
    options: MountOptions,
)
    ensures
        final(disk_mounts_val)@ == listed(
            old(disk_mounts_val)@,
            disk_entry(
                id@,
                guest@,
                match fstype {
                    Some(fs) => Some(fs@),
                    None => None,
                },
                options,
            ),
        ),
{
    if !disk_mounts_val.as_str().is_empty() {
        disk_mounts_val.append(";");
    }
    disk_mounts_val.append(id);
    disk_mounts_val.append(":");
    disk_mounts_val.append(guest);
    let mut opts = mount_option_tokens(options);
    let ghost fs_text: Option<Seq<char>> = match fstype {
        Some(fs) => Some(fs@),
        None => None,
    };
    if let Some(fs) = fstype {
        let mut token = "fstype=".to_owned();
        token.append(fs);
        opts.push(token);
    }
    assert(views(opts@) =~= option_tokens(options) + fstype_token(fs_text));
    append_option_block(disk_mounts_val, opts);
    assert(disk_mounts_val@ =~= listed(
        old(disk_mounts_val)@,
        disk_entry(id@, guest@, fs_text, options),
    ));
}

/// Appends the guest's entry for a staged file.
pub fn push_file_mounts_spec(
    file_mounts_val: &mut String,
    tag: &str,
    filename: &str,
    guest: &str,
    options: MountOptions,
)
    ensures
        final(file_mounts_val)@ == listed(
            old(file_mounts_val)@,
            file_entry(tag@, filename@, guest@, options),
        ),
{
    if !file_mounts_val.as_str().is_empty() {
        file_mounts_val.append(";");
    }
    file_mounts_val.append(tag);
    file_mounts_val.append(":");
    file_mounts_val.append(filename);
    file_mounts_val.append(":");
    file_mounts_val.append(guest);
    append_option_block(file_mounts_val, mount_option_tokens(options));
    assert(file_mounts_val@ =~= listed(
        old(file_mounts_val)@,
        file_entry(tag@, filename@, guest@, options),
    ));
}

/// Appends the guest's entry for memory.
pub fn push_tmpfs_spec(
    tmpfs_val: &mut String,
    guest: &str,
    size_mib: Option<u32>,
    options: MountOptions,
)
    ensures
        final(tmpfs_val)@ == listed(old(tmpfs_val)@, tmpfs_entry(guest@, size_mib, options)),
{
    if !tmpfs_val.as_str().is_empty() {
        tmpfs_val.append(";");
    }
    tmpfs_val.append(guest);
    let mut opts: Vec<String> = Vec::new();
    append_size(&mut opts, "size=", size_mib);
    let mut more = mount_option_tokens(options);
    let ghost first = opts@;
    let ghost second = more@;
    opts.append(&mut more);
    assert(views(opts@) =~= views(first) + views(second));
    assert(views(opts@) =~= size_token("size="@, size_mib) + option_tokens(options));
    append_option_block(tmpfs_val, opts);
    assert(tmpfs_val@ =~= listed(old(tmpfs_val)@, tmpfs_entry(guest@, size_mib, options)));
}

/// Encodes the limits of a sandbox for the guest.
pub fn encode_rlimits(rlimits: &[Rlimit]) -> (r: String)
    ensures
        r@ == rlimits_text(rlimits@),
{
    let ghost entries = rlimits@.map_values(|l: Rlimit| rlimit_entry(l));
    let mut out = String::new();
    let mut i: usize = 0;
    while i < rlimits.len()
        invariant
            i <= rlimits@.len(),
            entries == rlimits@.map_values(|l: Rlimit| rlimit_entry(l)),
            out@ == join(entries.take(i as int), ";"@),
        decreases rlimits@.len() - i,
    {
        let ghost before = out@;
        proof {
            crate::text::lemma_join_push(entries.take(i as int), entries[i as int], ";"@);
            assert(entries.take(i + 1) =~= entries.take(i as int).push(entries[i as int]));
        }
        if i > 0 {
            out.append(";");
        }
        let ghost middle = out@;
        out.append(rlimits[i].resource.as_str());
        out.append("=");
        crate::text::push_decimal(&mut out, rlimits[i].soft);
        out.append(":");
        crate::text::push_decimal(&mut out, rlimits[i].hard);
        assert(out@ =~= middle + rlimit_entry(rlimits@[i as int]));
        assert(i == 0 ==> middle + entries[0] =~= entries[0]);
        i = i + 1;
    }
    assert(entries.take(i as int) =~= entries);
    out
}

// ------------------------------------------------------------------------------------------------
// What the guest and the sandbox process can read from a mount
// ------------------------------------------------------------------------------------------------

proof fn lemma_tokens_differ()
    ensures
        "ro"@ != "noexec"@,
        "ro"@ != "nosuid"@,
        "ro"@ != "nodev"@,
        "noexec"@ != "nosuid"@,
        "noexec"@ != "nodev"@,
        "nosuid"@ != "nodev"@,
        "stat-virt=relaxed"@ != "stat-virt=off"@,
        "stat-virt=relaxed"@ != "host-perms=mirror"@,
        "stat-virt=off"@ != "host-perms=mirror"@,
{
    reveal_strlit("ro");
    reveal_strlit("noexec");
    reveal_strlit("nosuid");
    reveal_strlit("nodev");
    reveal_strlit("stat-virt=relaxed");
    reveal_strlit("stat-virt=off");
    reveal_strlit("host-perms=mirror");
    assert("noexec"@[2] != "nosuid"@[2]);
    assert("ro"@.len() == 2);
    assert("noexec"@.len() == 6);
    assert("nosuid"@.len() == 6);
    assert("nodev"@.len() == 5);
    assert("stat-virt=relaxed"@.len() == 17);
    assert("stat-virt=off"@.len() == 13);
    assert("stat-virt=relaxed"@[0] != "host-perms=mirror"@[0]);
    assert("stat-virt=off"@[0] != "host-perms=mirror"@[0]);
}

proof fn lemma_when(a: bool, b: bool, c: bool, d: bool, token: Seq<char>)
    ensures
        (when(a, "ro"@) + when(b, "noexec"@) + when(c, "nosuid"@) + when(d, "nodev"@)).contains(
            token,
        ) <==> (a && token == "ro"@) || (b && token == "noexec"@) || (c && token == "nosuid"@) || (d
            && token == "nodev"@),
{
    let s1 = when(a, "ro"@);
    let s2 = s1 + when(b, "noexec"@);
    let s3 = s2 + when(c, "nosuid"@);
    let s4 = s3 + when(d, "nodev"@);
    lemma_contains_sum(s1, when(b, "noexec"@), token);
    lemma_contains_sum(s2, when(c, "nosuid"@), token);
    lemma_contains_sum(s3, when(d, "nodev"@), token);
    lemma_contains_when(a, "ro"@, token);
    lemma_contains_when(b, "noexec"@, token);
    lemma_contains_when(c, "nosuid"@, token);
    lemma_contains_when(d, "nodev"@, token);
}

proof fn lemma_contains_when(condition: bool, word: Seq<char>, token: Seq<char>)
    ensures
        ({
            let words = when(condition, word);
            words.contains(token) <==> condition && token == word
        }),
{
    if condition {
        assert(when(condition, word)[0] == word);
    }
}

pub(crate) proof fn lemma_contains_sum(a: Seq<Seq<char>>, b: Seq<Seq<char>>, token: Seq<char>)
    ensures
        (a + b).contains(token) <==> a.contains(token) || b.contains(token),
{
    let s = a + b;
    if s.contains(token) {
        let i = choose|i: int| 0 <= i < s.len() && s[i] == token;
        if i < a.len() {
            assert(a[i] == token);
        } else {
            assert(b[i - a.len()] == token);
        }
    }
    if a.contains(token) {
        let i = choose|i: int| 0 <= i < a.len() && a[i] == token;
        assert(s[i] == token);
    }
    if b.contains(token) {
        let i = choose|i: int| 0 <= i < b.len() && b[i] == token;
        assert(s[a.len() + i] == token);
    }
}

/// Each option of a mount has its word, which is given exactly where the option is set, and no
/// other words are.
pub proof fn options_are_told_apart(options: MountOptions)
    ensures
        option_tokens(options).contains("ro"@) <==> options.readonly,
        option_tokens(options).contains("noexec"@) <==> options.noexec,
        option_tokens(options).contains("nosuid"@) <==> options.nosuid,
        option_tokens(options).contains("nodev"@) <==> options.nodev,
        forall|token: Seq<char>| #[trigger]
            option_tokens(options).contains(token) ==> token == "ro"@ || token == "noexec"@
                || token == "nosuid"@ || token == "nodev"@,
{
    lemma_tokens_differ();
    lemma_when(options.readonly, options.noexec, options.nosuid, options.nodev, "ro"@);
    lemma_when(options.readonly, options.noexec, options.nosuid, options.nodev, "noexec"@);
    lemma_when(options.readonly, options.noexec, options.nosuid, options.nodev, "nosuid"@);
    lemma_when(options.readonly, options.noexec, options.nosuid, options.nodev, "nodev"@);
    assert forall|token: Seq<char>| #[trigger] option_tokens(options).contains(token) implies token
        == "ro"@ || token == "noexec"@ || token == "nosuid"@ || token == "nodev"@ by {
        lemma_when(options.readonly, options.noexec, options.nosuid, options.nodev, token);
    }
}

/// Each sharing policy that is not the strictest has its word.
pub proof fn policies_are_told_apart(stat: StatVirtualization, permissions: HostPermissions)
    ensures
        policy_tokens(stat, permissions).contains("stat-virt=relaxed"@) <==> stat
            == StatVirtualization::Relaxed,
        policy_tokens(stat, permissions).contains("stat-virt=off"@) <==> stat
            == StatVirtualization::Off,
        policy_tokens(stat, permissions).contains("host-perms=mirror"@) <==> permissions
            == HostPermissions::Mirror,
        stat == StatVirtualization::Strict && permissions == HostPermissions::Private
            ==> policy_tokens(stat, permissions).len() == 0,
{
    lemma_tokens_differ();
    let tokens = policy_tokens(stat, permissions);
    let first: Seq<Seq<char>> = match stat {
        StatVirtualization::Strict => Seq::empty(),
        StatVirtualization::Relaxed => seq!["stat-virt=relaxed"@],
        StatVirtualization::Off => seq!["stat-virt=off"@],
    };
    let second: Seq<Seq<char>> = match permissions {
        HostPermissions::Private => Seq::empty(),
        HostPermissions::Mirror => seq!["host-perms=mirror"@],
    };
    assert(tokens =~= first + second);
    lemma_contains_sum(first, second, "stat-virt=relaxed"@);
    lemma_contains_sum(first, second, "stat-virt=off"@);
    lemma_contains_sum(first, second, "host-perms=mirror"@);
    if stat == StatVirtualization::Relaxed {
        assert(first[0] == "stat-virt=relaxed"@);
    }
    if stat == StatVirtualization::Off {
        assert(first[0] == "stat-virt=off"@);
    }
    if permissions == HostPermissions::Mirror {
        assert(second[0] == "host-perms=mirror"@);
    }
}

/// Whether words follow a text as its options: behind a colon, with commas between them, and
/// nothing where there are none.
pub open spec fn has_options(text: Seq<char>, front: Seq<char>, words: Seq<Seq<char>>) -> bool {
    text == if words.len() == 0 {
        front
    } else {
        front + ":"@ + join(words, ","@)
    }
}

/// Whether words say what a shared directory may do: each option and policy that is set, and its
/// quota, where it has one.
pub open spec fn says_sharing(
    words: Seq<Seq<char>>,
    options: MountOptions,
    stat: StatVirtualization,
    permissions: HostPermissions,
    quota_mib: Option<u32>,
) -> bool {
    &&& options.readonly ==> words.contains("ro"@)
    &&& options.noexec ==> words.contains("noexec"@)
    &&& options.nosuid ==> words.contains("nosuid"@)
    &&& options.nodev ==> words.contains("nodev"@)
    &&& stat == StatVirtualization::Relaxed ==> words.contains("stat-virt=relaxed"@)
    &&& stat == StatVirtualization::Off ==> words.contains("stat-virt=off"@)
    &&& permissions == HostPermissions::Mirror ==> words.contains("host-perms=mirror"@)
    &&& quota_mib is Some ==> words.contains("quota="@ + decimal(quota_mib->0 as nat))
    &&& words.len() == word_count(options) + (if stat == StatVirtualization::Strict {
        0int
    } else {
        1
    }) + (if permissions == HostPermissions::Private {
        0int
    } else {
        1
    }) + (if quota_mib is None {
        0int
    } else {
        1
    })
}

/// How many options are set.
pub open spec fn word_count(options: MountOptions) -> int {
    (if options.readonly {
        1int
    } else {
        0
    }) + (if options.noexec {
        1int
    } else {
        0
    }) + (if options.nosuid {
        1int
    } else {
        0
    }) + (if options.nodev {
        1int
    } else {
        0
    })
}

proof fn lemma_option_count(options: MountOptions)
    ensures
        option_tokens(options).len() == word_count(options),
{
}

/// A shared directory is given to the sandbox process as the tag of its guest path, its host path,
/// and all that holds of the sharing.
pub proof fn shared_directories_are_given_in_full(
    guest: Seq<char>,
    host: Seq<char>,
    options: MountOptions,
    stat: StatVirtualization,
    permissions: HostPermissions,
    quota_mib: Option<u32>,
)
    ensures
        exists|words: Seq<Seq<char>>|
            says_sharing(words, options, stat, permissions, quota_mib) && #[trigger] has_options(
                dir_mount_arg(guest, host, options, stat, permissions, quota_mib),
                mount_tag(guest) + ":"@ + host,
                words,
            ),
{
    options_are_told_apart(options);
    policies_are_told_apart(stat, permissions);
    lemma_option_count(options);
    let a = option_tokens(options);
    let b = policy_tokens(stat, permissions);
    let c = size_token("quota="@, quota_mib);
    let words = a + b + c;
    if quota_mib is Some {
        assert(c[0] == "quota="@ + decimal(quota_mib->0 as nat));
        lemma_contains_sum(a + b, c, "quota="@ + decimal(quota_mib->0 as nat));
    }
    lemma_kept(a, b, c);
    let front = mount_tag(guest) + ":"@ + host;
    let text = dir_mount_arg(guest, host, options, stat, permissions, quota_mib);
    lemma_block(front, words);
    assert(has_options(text, front, words));
}

proof fn lemma_kept(a: Seq<Seq<char>>, b: Seq<Seq<char>>, c: Seq<Seq<char>>)
    ensures
        forall|word: Seq<char>|
            #![trigger a.contains(word)]
            #![trigger b.contains(word)]
            #![trigger (a + b + c).contains(word)]
            a.contains(word) || b.contains(word) ==> (a + b + c).contains(word),
{
    assert forall|word: Seq<char>|
        #![trigger a.contains(word)]
        #![trigger b.contains(word)]
        #![trigger (a + b + c).contains(word)]
        a.contains(word) || b.contains(word) implies (a + b + c).contains(word) by {
        lemma_contains_sum(a, b, word);
        lemma_contains_sum(a + b, c, word);
    }
}

proof fn lemma_block(front: Seq<char>, words: Seq<Seq<char>>)
    ensures
        has_options(front + option_block(words), front, words),
{
    if words.len() == 0 {
        assert(front + option_block(words) =~= front);
    } else {
        assert(front + option_block(words) =~= front + ":"@ + join(words, ","@));
    }
}

/// A staged file is shared under its own tag, from its own directory, with all that holds of the
/// sharing; it has no quota.
pub proof fn staged_files_are_given_in_full(
    tag: Seq<char>,
    dir: Seq<char>,
    options: MountOptions,
    stat: StatVirtualization,
    permissions: HostPermissions,
)
    ensures
        exists|words: Seq<Seq<char>>|
            says_sharing(words, options, stat, permissions, None) && #[trigger] has_options(
                file_mount_arg(tag, dir, options, stat, permissions),
                tag + ":"@ + dir,
                words,
            ),
{
    options_are_told_apart(options);
    policies_are_told_apart(stat, permissions);
    lemma_option_count(options);
    let a = option_tokens(options);
    let b = policy_tokens(stat, permissions);
    let words = a + b;
    lemma_kept(a, b, Seq::empty());
    assert(a + b + Seq::<Seq<char>>::empty() =~= words);
    let front = tag + ":"@ + dir;
    lemma_block(front, words);
    assert(has_options(file_mount_arg(tag, dir, options, stat, permissions), front, words));
}

/// A disk is given to the sandbox process as its tag, its host path and its format, and as
/// read-only exactly where it is.
pub proof fn disks_are_given_in_full(
    id: Seq<char>,
    host: Seq<char>,
    format: DiskImageFormat,
    options: MountOptions,
)
    ensures
        disk_mount_arg(id, host, format, options) == id + ":"@ + host + ":"@ + (match format {
            DiskImageFormat::Raw => "raw"@,
            DiskImageFormat::Qcow2 => "qcow2"@,
            DiskImageFormat::Vmdk => "vmdk"@,
        }) + (if options.readonly {
            ":ro"@
        } else {
            Seq::empty()
        }),
{
}

/// Whether words say how the guest mounts something: each option that is set, and one more word
/// where there is one.
pub open spec fn says_options(
    words: Seq<Seq<char>>,
    options: MountOptions,
    more: Option<Seq<char>>,
) -> bool {
    &&& options.readonly ==> words.contains("ro"@)
    &&& options.noexec ==> words.contains("noexec"@)
    &&& options.nosuid ==> words.contains("nosuid"@)
    &&& options.nodev ==> words.contains("nodev"@)
    &&& more is Some ==> words.contains(more->0)
    &&& words.len() == word_count(options) + (if more is None {
        0int
    } else {
        1
    })
}

/// What the guest is told of a mount: for a shared directory its tag and path, for a staged file
/// its tag, name and path, for a disk its tag, path and filesystem, for memory its path and size;
/// and for each the options that are set.
pub proof fn guests_are_told_in_full(
    guest: Seq<char>,
    tag: Seq<char>,
    filename: Seq<char>,
    fstype: Option<Seq<char>>,
    size_mib: Option<u32>,
    options: MountOptions,
)
    ensures
        exists|words: Seq<Seq<char>>|
            says_options(words, options, None) && #[trigger] has_options(
                dir_entry(guest, options),
                mount_tag(guest) + ":"@ + guest,
                words,
            ),
        exists|words: Seq<Seq<char>>|
            says_options(words, options, None) && #[trigger] has_options(
                file_entry(tag, filename, guest, options),
                tag + ":"@ + filename + ":"@ + guest,
                words,
            ),
        exists|words: Seq<Seq<char>>|
            says_options(
                words,
                options,
                if fstype is Some {
                    Some("fstype="@ + fstype->0)
                } else {
                    None
                },
            ) && #[trigger] has_options(
                disk_entry(tag, guest, fstype, options),
                tag + ":"@ + guest,
                words,
            ),
        exists|words: Seq<Seq<char>>|
            says_options(
                words,
                options,
                if size_mib is Some {
                    Some("size="@ + decimal(size_mib->0 as nat))
                } else {
                    None
                },
            ) && #[trigger] has_options(tmpfs_entry(guest, size_mib, options), guest, words),
{
    options_are_told_apart(options);
    lemma_option_count(options);
    let a = option_tokens(options);
    lemma_block(mount_tag(guest) + ":"@ + guest, a);
    assert(has_options(dir_entry(guest, options), mount_tag(guest) + ":"@ + guest, a));
    lemma_block(tag + ":"@ + filename + ":"@ + guest, a);
    assert(has_options(
        file_entry(tag, filename, guest, options),
        tag + ":"@ + filename + ":"@ + guest,
        a,
    ));
    let b = fstype_token(fstype);
    let with_fs = a + b;
    lemma_kept(a, b, Seq::empty());
    assert(a + b + Seq::<Seq<char>>::empty() =~= with_fs);
    if fstype is Some {
        assert(b[0] == "fstype="@ + fstype->0);
        lemma_contains_sum(a, b, "fstype="@ + fstype->0);
    }
    lemma_block(tag + ":"@ + guest, with_fs);
    assert(has_options(disk_entry(tag, guest, fstype, options), tag + ":"@ + guest, with_fs));
    let c = size_token("size="@, size_mib);
    let with_size = c + a;
    lemma_kept(c, a, Seq::empty());
    assert(c + a + Seq::<Seq<char>>::empty() =~= with_size);
    if size_mib is Some {
        assert(c[0] == "size="@ + decimal(size_mib->0 as nat));
        lemma_contains_sum(c, a, "size="@ + decimal(size_mib->0 as nat));
    }
    lemma_block(guest, with_size);
    assert(has_options(tmpfs_entry(guest, size_mib, options), guest, with_size));
}

/// Entries come one after the other: a list keeps what it has and ends with the new entry, and only
/// a semicolon stands between.
pub proof fn entries_are_appended(list: Seq<char>, entry: Seq<char>)
    ensures
        list.len() == 0 ==> listed(list, entry) == entry,
        list.len() > 0 ==> listed(list, entry) == list + seq![';'] + entry,
{
    reveal_strlit(";");
    assert(";"@ =~= seq![';']);
}

proof fn lemma_fitting_prefix(s: Seq<char>, budget: int)
    ensures
        fitting(s, budget).is_prefix_of(s),
    decreases s.len(),
{
    if s.len() > 0 && utf8_len(seq![s[0]]) <= budget {
        lemma_fitting_prefix(s.drop_first(), budget - utf8_len(seq![s[0]]));
        let rest = fitting(s.drop_first(), budget - utf8_len(seq![s[0]]));
        assert(seq![s[0]] + rest =~= s.take(1 + rest.len() as int));
    }
}

proof fn lemma_unpadded(s: Seq<char>)
    ensures
        unpadded(s).len() <= s.len(),
        unpadded(s) == s.skip(s.len() - unpadded(s).len()),
        unpadded(s).len() > 0 ==> unpadded(s)[0] != '_',
        forall|i: int| 0 <= i < s.len() - unpadded(s).len() ==> s[i] == '_',
    decreases s.len(),
{
    if s.len() > 0 && s[0] == '_' {
        let rest = s.drop_first();
        lemma_unpadded(rest);
        assert(unpadded(s) =~= s.skip(s.len() - unpadded(s).len()));
        assert forall|i: int| 0 <= i < s.len() - unpadded(s).len() implies s[i] == '_' by {
            if i > 0 {
                assert(rest[i - 1] == s[i]);
            }
        }
    } else {
        assert(s.skip(0) =~= s);
    }
}

/// The tag of a mount begins with what can be read of its guest path, with `_` for `/` and none at
/// the front, and ends with eight hexadecimal digits of the digest of the path.
pub proof fn tags_can_be_read(guest: Seq<char>, digest: Seq<u8>)
    requires
        digest.len() >= 4,
    ensures
        !slug(guest).contains('/'),
        slug(guest).len() > 0 ==> slug(guest)[0] != '_',
        has_suffix(tag_with_digest(guest, digest), hex(digest.take(4))),
        slug(guest).len() > 0 ==> tag_with_digest(guest, digest) == slug(guest) + seq!['_'] + hex(
            digest.take(4),
        ),
        guest.len() > 0 && guest[0] == '/' ==> slug(guest) == slug(guest.skip(1)),
        utf8_len(tag_with_digest(guest, digest)) <= 20,
{
    mount_tag_fits(guest, digest);
    let m = mangled(guest);
    let u = unpadded(m);
    lemma_unpadded(m);
    lemma_fitting_prefix(u, SLUG_MAX as int);
    assert forall|i: int| 0 <= i < slug(guest).len() implies slug(guest)[i] != '/' by {
        assert(slug(guest)[i] == u[i]);
        assert(u[i] == m[m.len() - u.len() + i]);
    }
    if slug(guest).len() > 0 {
        assert(slug(guest)[0] == u[0]);
        assert(slug(guest).push('_') + hex(digest.take(4)) =~= slug(guest) + seq!['_'] + hex(
            digest.take(4),
        ));
    }
    let t = tag_with_digest(guest, digest);
    let h = hex(digest.take(4));
    assert(t.skip(t.len() - h.len()) =~= h);
    if guest.len() > 0 && guest[0] == '/' {
        assert(m[0] == '_');
        assert(m.drop_first() =~= mangled(guest.skip(1)));
    }
}

} // verus!
