//! Paths as the host reads them. Windows has two separators, drives, shares and verbatim paths.

use vstd::prelude::*;

use crate::paths::{components, joined, path_components, path_join, split, split_text};
use crate::text::{chars_of, join, join_text, same, string_of, views};

verus! {

/// How the components of a path are told apart.
#[derive(Clone, Copy, Debug, PartialEq, Eq, Structural)]
pub enum Grammar {
    /// By `/`.
    Unix,
    /// By `/` and `\`.
    Windows,
    /// By `\`, and nothing but it means anything.
    Verbatim,
}

/// Whether a character separates components.
pub open spec fn separates(c: char, grammar: Grammar) -> bool {
    match grammar {
        Grammar::Unix => c == '/',
        Grammar::Windows => c == '/' || c == '\\',
        Grammar::Verbatim => c == '\\',
    }
}

/// How a host writes paths.
pub open spec fn plain_grammar(windows: bool) -> Grammar {
    if windows {
        Grammar::Windows
    } else {
        Grammar::Unix
    }
}

/// How the components of a path are told apart on a host.
pub open spec fn grammar_of(s: Seq<char>, windows: bool) -> Grammar {
    if windows && is_verbatim(s) {
        Grammar::Verbatim
    } else {
        plain_grammar(windows)
    }
}

/// Whether a piece between separators is a component.
pub open spec fn is_component(piece: Seq<char>, grammar: Grammar) -> bool {
    piece.len() > 0 && (piece != seq!['.'] || grammar == Grammar::Verbatim)
}

/// Whether a drive such as `C:` stands at a place.
pub open spec fn drive_at(s: Seq<char>, at: int) -> bool {
    at + 2 <= s.len() && ('a' <= s[at] <= 'z' || 'A' <= s[at] <= 'Z') && s[at + 1] == ':'
}

/// Whether a path is verbatim: it begins with `\\?\`.
pub open spec fn is_verbatim(s: Seq<char>) -> bool {
    s.len() >= 4 && s[0] == '\\' && s[1] == '\\' && s[2] == '?' && s[3] == '\\'
}

/// The place of the first separator from a place on, or the end.
pub open spec fn next_separator(s: Seq<char>, from: int, grammar: Grammar) -> int
    decreases s.len() - from,
{
    if from >= s.len() {
        s.len() as int
    } else if separates(s[from], grammar) {
        from
    } else {
        next_separator(s, from + 1, grammar)
    }
}

/// Where the component after the one that ends at `end` ends.
pub open spec fn component_after(s: Seq<char>, end: int, grammar: Grammar) -> int {
    if end < s.len() {
        next_separator(s, end + 1, grammar)
    } else {
        end
    }
}

/// Where the prefix of a path ends on Windows: a drive, a share, a device, or what a verbatim path
/// begins with. Zero where there is none.
pub open spec fn prefix_end(s: Seq<char>) -> int {
    if s.len() >= 2 && separates(s[0], Grammar::Windows) && separates(s[1], Grammar::Windows) {
        if is_verbatim(s) {
            if s.len() >= 8 && s[4] == 'U' && s[5] == 'N' && s[6] == 'C' && separates(s[7], Grammar::Windows) {
                let server = next_separator(s, 8, Grammar::Verbatim);
                let share = component_after(s, server, Grammar::Verbatim);
                if share > server + 1 {
                    share
                } else {
                    server
                }
            } else if drive_at(s, 4) && (s.len() == 6 || separates(s[6], Grammar::Windows)) {
                6
            } else {
                next_separator(s, 4, Grammar::Verbatim)
            }
        } else if s.len() >= 4 && s[2] == '.' && separates(s[3], Grammar::Windows) {
            next_separator(s, 4, Grammar::Windows)
        } else {
            let server = next_separator(s, 2, Grammar::Windows);
            let share = component_after(s, server, Grammar::Windows);
            if server > 2 && share > server + 1 {
                share
            } else {
                0
            }
        }
    } else if drive_at(s, 0) {
        2
    } else {
        0
    }
}

/// Where the prefix of a path ends on a host.
pub open spec fn host_prefix_end(s: Seq<char>, windows: bool) -> int {
    if windows {
        prefix_end(s)
    } else {
        0
    }
}

/// Whether a root separator follows the prefix.
pub open spec fn is_rooted(s: Seq<char>, windows: bool) -> bool {
    let p = host_prefix_end(s, windows);
    p < s.len() && separates(s[p], plain_grammar(windows))
}

/// Whether a path that is not rooted begins with `.` behind its prefix.
pub open spec fn begins_with_dot(s: Seq<char>, windows: bool) -> bool {
    let p = host_prefix_end(s, windows);
    p < s.len() && s[p] == '.' && (p + 1 == s.len() || separates(s[p + 1], plain_grammar(windows)))
}

/// Where the head of a path ends: its prefix, and the root or a leading `.`.
pub open spec fn head_end(s: Seq<char>, windows: bool) -> int {
    let p = host_prefix_end(s, windows);
    if is_rooted(s, windows) || begins_with_dot(s, windows) {
        p + 1
    } else {
        p
    }
}

/// Where the last component before `end` begins, not before `head`.
pub open spec fn last_start(s: Seq<char>, head: int, end: int, grammar: Grammar) -> int
    decreases end - head,
{
    if end <= head {
        head
    } else if separates(s[end - 1], grammar) {
        end
    } else {
        last_start(s, head, end - 1, grammar)
    }
}

/// Where a path ends without what is no component.
pub open spec fn trimmed_end(s: Seq<char>, head: int, end: int, grammar: Grammar) -> int
    decreases end - head,
    when 0 <= head && end <= s.len()
    via trimmed_end_shrinks
{
    if end <= head {
        head
    } else {
        let start = last_start(s, head, end, grammar);
        if !is_component(s.subrange(start, end), grammar) {
            if start > head {
                trimmed_end(s, head, start - 1, grammar)
            } else {
                head
            }
        } else {
            end
        }
    }
}

#[via_fn]
proof fn trimmed_end_shrinks(s: Seq<char>, head: int, end: int, grammar: Grammar) {
    if end > head {
        lemma_last_start(s, head, end, grammar);
    }
}

proof fn lemma_last_start(s: Seq<char>, head: int, end: int, grammar: Grammar)
    requires
        0 <= head <= end <= s.len(),
    ensures
        head <= last_start(s, head, end, grammar) <= end,
        forall|i: int|
            last_start(s, head, end, grammar) <= i < end ==> !separates(#[trigger] s[i], grammar),
    decreases end - head,
{
    if end > head && !separates(s[end - 1], grammar) {
        lemma_last_start(s, head, end - 1, grammar);
    }
}

proof fn lemma_trimmed_end(s: Seq<char>, head: int, end: int, grammar: Grammar)
    requires
        0 <= head <= end <= s.len(),
    ensures
        head <= trimmed_end(s, head, end, grammar) <= end,
    decreases end - head,
{
    if end > head {
        lemma_last_start(s, head, end, grammar);
        let start = last_start(s, head, end, grammar);
        if start > head {
            lemma_trimmed_end(s, head, start - 1, grammar);
        }
    }
}

proof fn lemma_next_separator(s: Seq<char>, from: int, grammar: Grammar)
    requires
        0 <= from <= s.len(),
    ensures
        from <= next_separator(s, from, grammar) <= s.len(),
    decreases s.len() - from,
{
    if from < s.len() && !separates(s[from], grammar) {
        lemma_next_separator(s, from + 1, grammar);
    }
}

/// Where the last component of a path begins and ends on Windows.
pub open spec fn last_component(s: Seq<char>) -> (int, int) {
    let head = head_end(s, true);
    let grammar = grammar_of(s, true);
    let end = trimmed_end(s, head, s.len() as int, grammar);
    (last_start(s, head, end, grammar), end)
}

/// The last component of a path on Windows, unless it is a prefix, the root, `.` or `..`.
pub open spec fn windows_name(s: Seq<char>) -> Option<Seq<char>> {
    let (start, end) = last_component(s);
    let name = s.subrange(start, end);
    if end == head_end(s, true) || name == seq!['.'] || name == seq!['.', '.'] {
        None
    } else {
        Some(name)
    }
}

/// The path without its last component, on Windows.
pub open spec fn windows_parent(s: Seq<char>) -> Seq<char> {
    let head = head_end(s, true);
    let (start, end) = last_component(s);
    if start > head {
        s.take(trimmed_end(s, head, start - 1, grammar_of(s, true)))
    } else {
        s.take(head)
    }
}

/// The text with every separator written as `\`.
pub open spec fn one_separator(s: Seq<char>) -> Seq<char> {
    s.map_values(|c: char| if c == '/' { '\\' } else { c })
}

/// A list of components after one more: `.` changes nothing, and `..` takes a name away.
pub open spec fn stepped(parts: Seq<Seq<char>>, piece: Seq<char>) -> Seq<Seq<char>> {
    if piece.len() == 0 || piece == seq!['.'] {
        parts
    } else if piece == seq!['.', '.'] {
        if parts.len() > 0 && parts.last() != seq!['.'] && parts.last() != seq!['.', '.'] {
            parts.drop_last()
        } else {
            parts
        }
    } else {
        parts.push(piece)
    }
}

/// A list of components after several more.
pub open spec fn stepped_all(parts: Seq<Seq<char>>, pieces: Seq<Seq<char>>) -> Seq<Seq<char>>
    decreases pieces.len(),
{
    if pieces.len() == 0 {
        parts
    } else {
        stepped(stepped_all(parts, pieces.drop_last()), pieces.last())
    }
}

/// The components behind the head of a verbatim path.
pub open spec fn verbatim_parts(s: Seq<char>) -> Seq<Seq<char>> {
    split(s.skip(head_end(s, true)), '\\').filter(|p: Seq<char>| p.len() > 0)
}

/// `child` below a verbatim path, which is written out anew.
pub open spec fn verbatim_joined(base: Seq<char>, child: Seq<char>) -> Seq<char> {
    let child_rooted = child.len() > 0 && separates(child[0], Grammar::Windows);
    let first = if child_rooted {
        Seq::empty()
    } else {
        verbatim_parts(base)
    };
    let parts = stepped_all(first, split(one_separator(child), '\\'));
    let prefix = base.take(prefix_end(base));
    if parts.len() > 0 {
        prefix.push('\\') + join(parts, seq!['\\'])
    } else if is_rooted(base, true) || child_rooted {
        prefix.push('\\')
    } else {
        prefix
    }
}

/// `child` below `base`. A child with a prefix stands alone, and a rooted one keeps only the
/// prefix of the base.
pub open spec fn windows_joined(base: Seq<char>, child: Seq<char>) -> Seq<char> {
    if prefix_end(child) > 0 {
        child
    } else if is_verbatim(base) && child.len() > 0 {
        verbatim_joined(base, child)
    } else if child.len() > 0 && separates(child[0], Grammar::Windows) {
        base.take(prefix_end(base)) + child
    } else if base.len() == 0 || separates(base.last(), Grammar::Windows) || (base.len() == 2 && drive_at(
        base,
        0,
    )) {
        base + child
    } else {
        base.push('\\') + child
    }
}

/// `child` below `base`.
pub open spec fn host_joined(base: Seq<char>, child: Seq<char>, windows: bool) -> Seq<char> {
    if windows {
        windows_joined(base, child)
    } else {
        joined(base, child)
    }
}

/// A letter in upper case.
pub open spec fn upper(c: char) -> char {
    if 'a' <= c <= 'z' {
        (c as int - 32) as char
    } else {
        c
    }
}

/// The prefix of a path on Windows as it compares: the letter of a drive has no case, and either
/// separator is as good, save where a verbatim path means it as it is.
pub open spec fn prefix_key(s: Seq<char>) -> Seq<char> {
    let p = prefix_end(s);
    if drive_at(s, 0) {
        seq![upper(s[0]), ':']
    } else if !is_verbatim(s) {
        one_separator(s.take(p))
    } else if p >= 8 && s[4] == 'U' && s[5] == 'N' && s[6] == 'C' && separates(
        s[7],
        Grammar::Windows,
    ) {
        s.take(7).push('\\') + s.subrange(8, p)
    } else if p == 6 && drive_at(s, 4) {
        s.take(4) + seq![upper(s[4]), ':']
    } else {
        s.take(p)
    }
}

/// Whether a path on Windows has a root: one is written, or a share or device implies it.
pub open spec fn has_windows_root(s: Seq<char>) -> bool {
    is_rooted(s, true) || (prefix_end(s) > 0 && !drive_at(s, 0) && !is_verbatim(s))
}

/// The components of a path from a place on.
pub open spec fn pieces_from(s: Seq<char>, at: int, grammar: Grammar) -> Seq<Seq<char>>
    decreases s.len() - at,
    when 0 <= at <= s.len()
    via pieces_from_shrinks
{
    if at >= s.len() {
        Seq::empty()
    } else {
        let end = next_separator(s, at, grammar);
        let piece = s.subrange(at, end);
        let rest = if end < s.len() {
            pieces_from(s, end + 1, grammar)
        } else {
            Seq::empty()
        };
        if is_component(piece, grammar) {
            seq![piece] + rest
        } else {
            rest
        }
    }
}

#[via_fn]
proof fn pieces_from_shrinks(s: Seq<char>, at: int, grammar: Grammar) {
    if at < s.len() {
        lemma_next_separator(s, at, grammar);
    }
}

/// The components before the body of a path on Windows.
pub open spec fn windows_head(s: Seq<char>) -> Seq<Seq<char>> {
    let prefix = if prefix_end(s) > 0 {
        seq![prefix_key(s)]
    } else {
        Seq::empty()
    };
    if has_windows_root(s) {
        prefix.push(seq!['\\'])
    } else if prefix_end(s) == 0 && begins_with_dot(s, true) {
        prefix.push(seq!['.'])
    } else {
        prefix
    }
}

/// The components of a path, as they compare.
pub open spec fn host_components(s: Seq<char>, windows: bool) -> Seq<Seq<char>> {
    if windows {
        windows_head(s) + pieces_from(s, head_end(s, true), grammar_of(s, true))
    } else {
        components(s)
    }
}

/// How many components the head of a path is.
pub open spec fn head_count(s: Seq<char>, windows: bool) -> nat {
    if windows {
        windows_head(s).len()
    } else if is_rooted(s, false) || begins_with_dot(s, false) {
        1
    } else {
        0
    }
}

/// Where the component after `count` others begins, from a place on.
pub open spec fn place_after(s: Seq<char>, at: int, count: nat, grammar: Grammar) -> int
    decreases s.len() - at,
    when 0 <= at <= s.len()
    via place_after_shrinks
{
    if at >= s.len() {
        s.len() as int
    } else {
        let end = next_separator(s, at, grammar);
        let next = if end < s.len() {
            end + 1
        } else {
            end
        };
        if !is_component(s.subrange(at, end), grammar) {
            place_after(s, next, count, grammar)
        } else if count == 0 {
            at
        } else {
            place_after(s, next, (count - 1) as nat, grammar)
        }
    }
}

#[via_fn]
proof fn place_after_shrinks(s: Seq<char>, at: int, count: nat, grammar: Grammar) {
    if at < s.len() {
        lemma_next_separator(s, at, grammar);
    }
}

/// What is left of a path behind its first components, as it is written.
pub open spec fn left_over(s: Seq<char>, count: nat, windows: bool) -> Seq<char> {
    let grammar = grammar_of(s, windows);
    let head = head_end(s, windows);
    let end = trimmed_end(s, head, s.len() as int, grammar);
    let start = if count == 0 {
        0
    } else if count == 1 && host_prefix_end(s, windows) > 0 {
        host_prefix_end(s, windows)
    } else {
        place_after(s, head, (count - head_count(s, windows)) as nat, grammar)
    };
    if start < end {
        s.subrange(start, end)
    } else {
        Seq::empty()
    }
}

/// Whether the components of `base` begin those of `path`.
pub open spec fn is_below(path: Seq<char>, base: Seq<char>, windows: bool) -> bool {
    let p = host_components(path, windows);
    let b = host_components(base, windows);
    b.len() <= p.len() && p.take(b.len() as int) == b
}

/// `path` with the leading components `from` replaced by `to`; a path elsewhere stays.
pub open spec fn moved(path: Seq<char>, from: Seq<char>, to: Seq<char>, windows: bool) -> Seq<char> {
    if is_below(path, from, windows) {
        host_joined(
            to,
            left_over(path, host_components(from, windows).len(), windows),
            windows,
        )
    } else {
        path
    }
}

// ------------------------------------------------------------------------------------------------
// Reading
// ------------------------------------------------------------------------------------------------

fn is_separator(c: char, grammar: Grammar) -> (r: bool)
    ensures
        r == separates(c, grammar),
{
    match grammar {
        Grammar::Unix => c == '/',
        Grammar::Windows => c == '/' || c == '\\',
        Grammar::Verbatim => c == '\\',
    }
}

fn usual_grammar(windows: bool) -> (r: Grammar)
    ensures
        r == plain_grammar(windows),
{
    if windows {
        Grammar::Windows
    } else {
        Grammar::Unix
    }
}

fn read_grammar(s: &Vec<char>, windows: bool) -> (r: Grammar)
    ensures
        r == grammar_of(s@, windows),
{
    if windows && has_verbatim(s) {
        Grammar::Verbatim
    } else {
        usual_grammar(windows)
    }
}

fn has_drive(s: &Vec<char>, at: usize) -> (r: bool)
    requires
        at <= 4,
    ensures
        r == drive_at(s@, at as int),
{
    if s.len() < at + 2 {
        return false;
    }
    let c = s[at];
    (('a' <= c && c <= 'z') || ('A' <= c && c <= 'Z')) && s[at + 1] == ':'
}

fn has_verbatim(s: &Vec<char>) -> (r: bool)
    ensures
        r == is_verbatim(s@),
{
    s.len() >= 4 && s[0] == '\\' && s[1] == '\\' && s[2] == '?' && s[3] == '\\'
}

fn find_separator(s: &Vec<char>, from: usize, grammar: Grammar) -> (r: usize)
    requires
        from <= s@.len(),
    ensures
        r == next_separator(s@, from as int, grammar),
        from <= r <= s@.len(),
{
    let mut i: usize = from;
    while i < s.len() && !is_separator(s[i], grammar)
        invariant
            from <= i <= s@.len(),
            next_separator(s@, from as int, grammar) == next_separator(s@, i as int, grammar),
        decreases s@.len() - i,
    {
        i = i + 1;
    }
    i
}

fn find_component_after(s: &Vec<char>, end: usize, grammar: Grammar) -> (r: usize)
    requires
        end <= s@.len(),
    ensures
        r == component_after(s@, end as int, grammar),
        end <= r <= s@.len(),
{
    if end < s.len() {
        find_separator(s, end + 1, grammar)
    } else {
        end
    }
}

fn find_prefix_end(s: &Vec<char>) -> (r: usize)
    ensures
        r == prefix_end(s@),
        r <= s@.len(),
{
    if s.len() >= 2 && is_separator(s[0], Grammar::Windows) && is_separator(s[1], Grammar::Windows) {
        if has_verbatim(s) {
            if s.len() >= 8 && s[4] == 'U' && s[5] == 'N' && s[6] == 'C' && is_separator(
                s[7],
                Grammar::Windows,
            ) {
                let server: usize = find_separator(s, 8, Grammar::Verbatim);
                let share: usize = find_component_after(s, server, Grammar::Verbatim);
                if share - server > 1 {
                    share
                } else {
                    server
                }
            } else if has_drive(s, 4) && (s.len() == 6 || is_separator(s[6], Grammar::Windows)) {
                6
            } else {
                find_separator(s, 4, Grammar::Verbatim)
            }
        } else if s.len() >= 4 && s[2] == '.' && is_separator(s[3], Grammar::Windows) {
            find_separator(s, 4, Grammar::Windows)
        } else {
            let server: usize = find_separator(s, 2, Grammar::Windows);
            let share: usize = find_component_after(s, server, Grammar::Windows);
            if server > 2 && share - server > 1 {
                share
            } else {
                0
            }
        }
    } else if has_drive(s, 0) {
        2
    } else {
        0
    }
}

fn find_host_prefix_end(s: &Vec<char>, windows: bool) -> (r: usize)
    ensures
        r == host_prefix_end(s@, windows),
        r <= s@.len(),
{
    if windows {
        find_prefix_end(s)
    } else {
        0
    }
}

fn has_root(s: &Vec<char>, windows: bool) -> (r: bool)
    ensures
        r == is_rooted(s@, windows),
{
    let p: usize = find_host_prefix_end(s, windows);
    p < s.len() && is_separator(s[p], usual_grammar(windows))
}

fn has_dot(s: &Vec<char>, windows: bool) -> (r: bool)
    ensures
        r == begins_with_dot(s@, windows),
{
    let p: usize = find_host_prefix_end(s, windows);
    p < s.len() && s[p] == '.' && (p + 1 == s.len() || is_separator(
        s[p + 1],
        usual_grammar(windows),
    ))
}

fn find_head_end(s: &Vec<char>, windows: bool) -> (r: usize)
    ensures
        r == head_end(s@, windows),
        host_prefix_end(s@, windows) <= r <= s@.len(),
{
    let p: usize = find_host_prefix_end(s, windows);
    let len: usize = s.len();
    if has_root(s, windows) || has_dot(s, windows) {
        p + 1
    } else {
        p
    }
}

fn find_last_start(s: &Vec<char>, head: usize, end: usize, grammar: Grammar) -> (r: usize)
    requires
        head <= end <= s@.len(),
    ensures
        r == last_start(s@, head as int, end as int, grammar),
        head <= r <= end,
{
    let mut i: usize = end;
    while i > head && !is_separator(s[i - 1], grammar)
        invariant
            head <= i <= end <= s@.len(),
            last_start(s@, head as int, end as int, grammar) == last_start(
                s@,
                head as int,
                i as int,
                grammar,
            ),
        decreases i,
    {
        i = i - 1;
    }
    i
}

fn find_trimmed_end(s: &Vec<char>, head: usize, end: usize, grammar: Grammar) -> (r: usize)
    requires
        head <= end <= s@.len(),
    ensures
        r == trimmed_end(s@, head as int, end as int, grammar),
        head <= r <= end,
    decreases end,
{
    if end <= head {
        return head;
    }
    let start: usize = find_last_start(s, head, end, grammar);
    let ghost piece = s@.subrange(start as int, end as int);
    proof {
        if piece.len() == 1 && piece[0] == '.' {
            assert(piece =~= seq!['.']);
        }
    }
    if start == end || (end - start == 1 && s[start] == '.' && grammar != Grammar::Verbatim) {
        if start > head {
            find_trimmed_end(s, head, start - 1, grammar)
        } else {
            head
        }
    } else {
        assert(piece == seq!['.'] ==> piece.len() == 1 && piece[0] == '.');
        end
    }
}

fn text_between(s: &Vec<char>, from: usize, to: usize) -> (r: String)
    requires
        from <= to <= s@.len(),
    ensures
        r@ == s@.subrange(from as int, to as int),
{
    let mut out: Vec<char> = Vec::new();
    let mut i: usize = from;
    while i < to
        invariant
            from <= i <= to <= s@.len(),
            out@ == s@.subrange(from as int, i as int),
        decreases to - i,
    {
        out.push(s[i]);
        i = i + 1;
        assert(out@ =~= s@.subrange(from as int, i as int));
    }
    string_of(out.as_slice())
}

/// The last component of a path on Windows, unless it is a prefix, the root, `.` or `..`.
pub fn windows_file_name(path: &str) -> (r: Option<String>)
    ensures
        r is Some <==> windows_name(path@) is Some,
        r matches Some(name) ==> windows_name(path@) == Some(name@),
{
    let s = chars_of(path);
    let grammar = read_grammar(&s, true);
    let head: usize = find_head_end(&s, true);
    let end: usize = find_trimmed_end(&s, head, s.len(), grammar);
    let start: usize = find_last_start(&s, head, end, grammar);
    if end == head {
        return None;
    }
    let name = text_between(&s, start, end);
    proof {
        reveal_strlit(".");
        reveal_strlit("..");
        assert("."@ =~= seq!['.']);
        assert(".."@ =~= seq!['.', '.']);
    }
    if same(name.as_str(), ".") || same(name.as_str(), "..") {
        None
    } else {
        Some(name)
    }
}

/// The path without its last component, on Windows.
pub fn windows_parent_path(path: &str) -> (r: String)
    ensures
        r@ == windows_parent(path@),
{
    let s = chars_of(path);
    let grammar = read_grammar(&s, true);
    let head: usize = find_head_end(&s, true);
    let end: usize = find_trimmed_end(&s, head, s.len(), grammar);
    let start: usize = find_last_start(&s, head, end, grammar);
    let cut: usize = if start > head {
        find_trimmed_end(&s, head, start - 1, grammar)
    } else {
        head
    };
    assert(s@.subrange(0, cut as int) =~= s@.take(cut as int));
    text_between(&s, 0, cut)
}

fn backslashed(s: &Vec<char>) -> (r: String)
    ensures
        r@ == one_separator(s@),
{
    let mut out: Vec<char> = Vec::new();
    let mut i: usize = 0;
    while i < s.len()
        invariant
            i <= s@.len(),
            out@ == one_separator(s@).take(i as int),
        decreases s@.len() - i,
    {
        out.push(
            if s[i] == '/' {
                '\\'
            } else {
                s[i]
            },
        );
        i = i + 1;
        assert(out@ =~= one_separator(s@).take(i as int));
    }
    assert(one_separator(s@).take(i as int) =~= one_separator(s@));
    string_of(out.as_slice())
}

fn step(parts: &mut Vec<String>, piece: String)
    ensures
        views(final(parts)@) == stepped(views(old(parts)@), piece@),
{
    let ghost before = views(parts@);
    proof {
        reveal_strlit(".");
        reveal_strlit("..");
        reveal_strlit("");
        assert("."@ =~= seq!['.']);
        assert(".."@ =~= seq!['.', '.']);
        assert(""@ =~= Seq::<char>::empty());
        assert(piece@.len() == 0 ==> piece@ =~= ""@);
    }
    if same(piece.as_str(), "") || same(piece.as_str(), ".") {
        return;
    }
    if same(piece.as_str(), "..") {
        if parts.len() > 0 {
            let ghost all = parts@;
            assert(before.last() == all[all.len() - 1]@);
            let plain = {
                let last = &parts[parts.len() - 1];
                !same(last.as_str(), ".") && !same(last.as_str(), "..")
            };
            if plain {
                let _ = parts.pop();
                assert(views(parts@) =~= before.drop_last());
            }
        }
        return;
    }
    let ghost text = piece@;
    parts.push(piece);
    assert(views(parts@) =~= before.push(text));
}

fn join_verbatim(base: &Vec<char>, child: &Vec<char>) -> (r: String)
    ensures
        r@ == verbatim_joined(base@, child@),
{
    let prefix: usize = find_prefix_end(base);
    let head: usize = find_head_end(base, true);
    let base_rooted = has_root(base, true);
    let child_rooted = child.len() > 0 && is_separator(child[0], Grammar::Windows);
    let mut parts: Vec<String> = Vec::new();
    assert(views(parts@) =~= Seq::<Seq<char>>::empty());
    if !child_rooted {
        let body = text_between(base, head, base.len());
        assert(body@ =~= base@.skip(head_end(base@, true)));
        let pieces = split_text(body.as_str(), '\\');
        let ghost all = views(pieces@);
        let ghost named = |p: Seq<char>| p.len() > 0;
        let mut i: usize = 0;
        proof {
            reveal(Seq::filter);
            assert(all.take(0) =~= Seq::<Seq<char>>::empty());
        }
        while i < pieces.len()
            invariant
                i <= pieces@.len(),
                all == views(pieces@),
                named == (|p: Seq<char>| p.len() > 0),
                views(parts@) == all.take(i as int).filter(named),
            decreases pieces@.len() - i,
        {
            proof {
                reveal(Seq::filter);
                reveal_strlit("");
                assert(""@ =~= Seq::<char>::empty());
                assert(all.take(i + 1).drop_last() =~= all.take(i as int));
                assert(all.take(i + 1).last() == pieces@[i as int]@);
                assert(pieces@[i as int]@.len() == 0 ==> pieces@[i as int]@ =~= ""@);
            }
            let ghost before = views(parts@);
            if !same(pieces[i].as_str(), "") {
                parts.push(pieces[i].clone());
                assert(views(parts@) =~= before.push(pieces@[i as int]@));
            }
            i = i + 1;
        }
        assert(all.take(i as int) =~= all);
    }
    let ghost first = views(parts@);
    let flat = backslashed(child);
    let steps = split_text(flat.as_str(), '\\');
    let ghost all = views(steps@);
    let mut j: usize = 0;
    assert(all.take(0) =~= Seq::<Seq<char>>::empty());
    while j < steps.len()
        invariant
            j <= steps@.len(),
            all == views(steps@),
            views(parts@) == stepped_all(first, all.take(j as int)),
        decreases steps@.len() - j,
    {
        assert(all.take(j + 1).drop_last() =~= all.take(j as int));
        assert(all.take(j + 1).last() == steps@[j as int]@);
        step(&mut parts, steps[j].clone());
        j = j + 1;
    }
    assert(all.take(j as int) =~= all);
    let mut out = text_between(base, 0, prefix);
    assert(out@ =~= base@.take(prefix_end(base@)));
    if parts.len() > 0 {
        out.push('\\');
        proof {
            reveal_strlit("\\");
            assert("\\"@ =~= seq!['\\']);
        }
        let tail = join_text(&parts, "\\");
        out.append(tail.as_str());
    } else if base_rooted || child_rooted {
        out.push('\\');
    }
    out
}

/// `child` below `base`.
pub fn windows_join(base: &str, child: &str) -> (r: String)
    ensures
        r@ == windows_joined(base@, child@),
{
    let b = chars_of(base);
    let c = chars_of(child);
    if find_prefix_end(&c) > 0 {
        return child.to_owned();
    }
    if has_verbatim(&b) && c.len() > 0 {
        return join_verbatim(&b, &c);
    }
    if c.len() > 0 && is_separator(c[0], Grammar::Windows) {
        let prefix: usize = find_prefix_end(&b);
        let mut out = text_between(&b, 0, prefix);
        assert(out@ =~= b@.take(prefix as int));
        out.append(child);
        return out;
    }
    let mut out = base.to_owned();
    if b.len() > 0 && !is_separator(b[b.len() - 1], Grammar::Windows) && !(b.len() == 2 && has_drive(&b, 0)) {
        out.push('\\');
    }
    out.append(child);
    out
}

/// `child` below `base`.
pub fn host_join(base: &str, child: &str, windows: bool) -> (r: String)
    ensures
        r@ == host_joined(base@, child@, windows),
{
    if windows {
        windows_join(base, child)
    } else {
        path_join(base, child)
    }
}

fn to_upper(c: char) -> (r: char)
    ensures
        r == upper(c),
{
    if 'a' <= c && c <= 'z' {
        (c as u8 - 32) as char
    } else {
        c
    }
}

fn read_prefix(s: &Vec<char>) -> (r: String)
    requires
        prefix_end(s@) > 0,
    ensures
        r@ == prefix_key(s@),
{
    let p: usize = find_prefix_end(s);
    if has_drive(s, 0) {
        let mut out = String::new();
        out.push(to_upper(s[0]));
        out.push(':');
        assert(out@ =~= seq![upper(s@[0]), ':']);
        out
    } else if !has_verbatim(s) {
        let mut taken: Vec<char> = Vec::new();
        let mut i: usize = 0;
        while i < p
            invariant
                i <= p <= s@.len(),
                taken@ == s@.take(i as int),
            decreases p - i,
        {
            taken.push(s[i]);
            i = i + 1;
            assert(taken@ =~= s@.take(i as int));
        }
        backslashed(&taken)
    } else if p >= 8 && s[4] == 'U' && s[5] == 'N' && s[6] == 'C' && is_separator(
        s[7],
        Grammar::Windows,
    ) {
        let mut out = text_between(s, 0, 7);
        assert(out@ =~= s@.take(7));
        out.push('\\');
        let rest = text_between(s, 8, p);
        out.append(rest.as_str());
        out
    } else if p == 6 && has_drive(s, 4) {
        let mut out = text_between(s, 0, 4);
        out.push(to_upper(s[4]));
        out.push(':');
        assert(out@ =~= s@.take(4) + seq![upper(s@[4]), ':']);
        out
    } else {
        let out = text_between(s, 0, p);
        assert(out@ =~= s@.take(p as int));
        out
    }
}

fn read_head(s: &Vec<char>) -> (r: Vec<String>)
    ensures
        views(r@) == windows_head(s@),
{
    let mut out: Vec<String> = Vec::new();
    let prefix: usize = find_prefix_end(s);
    if prefix > 0 {
        out.push(read_prefix(s));
    }
    let ghost first = views(out@);
    assert(first =~= if prefix_end(s@) > 0 {
        seq![prefix_key(s@)]
    } else {
        Seq::empty()
    });
    proof {
        reveal_strlit("\\");
        reveal_strlit(".");
        assert("\\"@ =~= seq!['\\']);
        assert("."@ =~= seq!['.']);
    }
    if has_root(s, true) || (prefix > 0 && !has_drive(s, 0) && !has_verbatim(s)) {
        out.push("\\".to_owned());
        assert(views(out@) =~= first.push(seq!['\\']));
    } else if prefix == 0 && has_dot(s, true) {
        out.push(".".to_owned());
        assert(views(out@) =~= first.push(seq!['.']));
    }
    out
}

fn piece_is_component(s: &Vec<char>, at: usize, end: usize, grammar: Grammar) -> (r: bool)
    requires
        at <= end <= s@.len(),
    ensures
        r == is_component(s@.subrange(at as int, end as int), grammar),
{
    let ghost piece = s@.subrange(at as int, end as int);
    proof {
        if piece.len() == 1 && piece[0] == '.' {
            assert(piece =~= seq!['.']);
        }
        assert(piece == seq!['.'] ==> piece.len() == 1 && piece[0] == '.');
    }
    at < end && (end - at != 1 || s[at] != '.' || grammar == Grammar::Verbatim)
}

fn push_pieces(out: &mut Vec<String>, s: &Vec<char>, from: usize, grammar: Grammar)
    requires
        from <= s@.len(),
    ensures
        views(final(out)@) == views(old(out)@) + pieces_from(s@, from as int, grammar),
{
    let ghost all = views(out@) + pieces_from(s@, from as int, grammar);
    let mut at: usize = from;
    while at < s.len()
        invariant
            at <= s@.len(),
            views(out@) + pieces_from(s@, at as int, grammar) == all,
        decreases s@.len() - at,
    {
        let end: usize = find_separator(s, at, grammar);
        let ghost before = views(out@);
        let ghost piece = s@.subrange(at as int, end as int);
        if piece_is_component(s, at, end, grammar) {
            out.push(text_between(s, at, end));
            assert(views(out@) =~= before.push(piece));
        }
        at = if end < s.len() {
            end + 1
        } else {
            end
        };
        assert(views(out@) + pieces_from(s@, at as int, grammar) =~= all);
    }
    assert(views(out@) =~= all);
}

/// The components of a path, as they compare.
pub fn read_components(path: &str, windows: bool) -> (r: Vec<String>)
    ensures
        views(r@) == host_components(path@, windows),
{
    if !windows {
        return path_components(path);
    }
    let s = chars_of(path);
    let mut out = read_head(&s);
    push_pieces(&mut out, &s, find_head_end(&s, true), read_grammar(&s, true));
    out
}

fn find_place_after(s: &Vec<char>, from: usize, count: usize, grammar: Grammar) -> (r: usize)
    requires
        from <= s@.len(),
    ensures
        r == place_after(s@, from as int, count as nat, grammar),
        r <= s@.len(),
{
    let mut at: usize = from;
    let mut left: usize = count;
    while at < s.len()
        invariant
            at <= s@.len(),
            place_after(s@, from as int, count as nat, grammar) == place_after(
                s@,
                at as int,
                left as nat,
                grammar,
            ),
        decreases s@.len() - at,
    {
        let end: usize = find_separator(s, at, grammar);
        if piece_is_component(s, at, end, grammar) {
            if left == 0 {
                return at;
            }
            left = left - 1;
        }
        at = if end < s.len() {
            end + 1
        } else {
            end
        };
    }
    at
}

fn read_left_over(path: &str, count: usize, windows: bool) -> (r: String)
    ensures
        r@ == left_over(path@, count as nat, windows),
{
    let s = chars_of(path);
    let grammar = read_grammar(&s, windows);
    let head: usize = find_head_end(&s, windows);
    let prefix: usize = find_host_prefix_end(&s, windows);
    let end: usize = find_trimmed_end(&s, head, s.len(), grammar);
    let heads: usize = if windows {
        let read = read_head(&s);
        assert(views(read@).len() == read@.len());
        read.len()
    } else if has_root(&s, false) || has_dot(&s, false) {
        1
    } else {
        0
    };
    let start: usize = if count == 0 {
        0
    } else if count == 1 && prefix > 0 {
        prefix
    } else {
        find_place_after(&s, head, count - heads, grammar)
    };
    if start < end {
        text_between(&s, start, end)
    } else {
        assert(Seq::<char>::empty() =~= ""@) by {
            reveal_strlit("");
        }
        String::new()
    }
}

/// Moves a path from below `from` to below `to`; a path elsewhere stays.
pub fn move_path(path: &str, from: &str, to: &str, windows: bool) -> (r: String)
    ensures
        r@ == moved(path@, from@, to@, windows),
{
    let parts = read_components(path, windows);
    let base = read_components(from, windows);
    let ghost p = views(parts@);
    let ghost b = views(base@);
    if base.len() > parts.len() {
        return path.to_owned();
    }
    let mut i: usize = 0;
    while i < base.len()
        invariant
            i <= base@.len() <= parts@.len(),
            p == views(parts@),
            b == views(base@),
            p == host_components(path@, windows),
            b == host_components(from@, windows),
            forall|k: int| 0 <= k < i ==> p[k] == b[k],
        decreases base@.len() - i,
    {
        assert(p[i as int] == parts@[i as int]@);
        assert(b[i as int] == base@[i as int]@);
        if !same(parts[i].as_str(), base[i].as_str()) {
            assert(p.take(b.len() as int)[i as int] != b[i as int]);
            return path.to_owned();
        }
        i = i + 1;
    }
    assert(p.take(b.len() as int) =~= b);
    let rest = read_left_over(path, base.len(), windows);
    host_join(to, rest.as_str(), windows)
}

/// Whether two paths have the same components.
pub fn same_path(a: &str, b: &str, windows: bool) -> (r: bool)
    ensures
        r == (host_components(a@, windows) == host_components(b@, windows)),
{
    let left = read_components(a, windows);
    let right = read_components(b, windows);
    let ghost l = views(left@);
    let ghost m = views(right@);
    assert(l.len() == left@.len() && m.len() == right@.len());
    if left.len() != right.len() {
        return false;
    }
    let mut i: usize = 0;
    while i < left.len()
        invariant
            i <= left@.len() == right@.len(),
            l == views(left@) && m == views(right@),
            l == host_components(a@, windows) && m == host_components(b@, windows),
            forall|k: int| 0 <= k < i ==> l[k] == m[k],
        decreases left@.len() - i,
    {
        assert(l[i as int] == left@[i as int]@);
        assert(m[i as int] == right@[i as int]@);
        if !same(left[i].as_str(), right[i].as_str()) {
            return false;
        }
        i = i + 1;
    }
    assert(l =~= m);
    true
}

/// A name on Windows is one component: it holds no `\`, and unless the path is verbatim no `/`. It
/// is neither `.` nor `..`.
pub proof fn windows_names_are_components(path: Seq<char>)
    requires
        windows_name(path) is Some,
    ensures
        forall|i: int|
            0 <= i < windows_name(path)->0.len() ==> !separates(
                #[trigger] windows_name(path)->0[i],
                grammar_of(path, true),
            ),
        windows_name(path)->0.len() > 0,
        windows_name(path)->0 != seq!['.'],
        windows_name(path)->0 != seq!['.', '.'],
{
    let grammar = grammar_of(path, true);
    let head = head_end(path, true);
    lemma_head_end(path, true);
    lemma_trimmed_end(path, head, path.len() as int, grammar);
    let end = trimmed_end(path, head, path.len() as int, grammar);
    lemma_last_start(path, head, end, grammar);
    let start = last_start(path, head, end, grammar);
    let name = path.subrange(start, end);
    assert forall|i: int| 0 <= i < name.len() implies !separates(#[trigger] name[i], grammar) by {
        assert(name[i] == path[start + i]);
    }
    lemma_trimmed_is_named(path, head, path.len() as int, grammar);
}

proof fn lemma_head_end(s: Seq<char>, windows: bool)
    ensures
        0 <= host_prefix_end(s, windows) <= head_end(s, windows) <= s.len(),
{
    if s.len() >= 2 {
        lemma_next_separator(s, 2, Grammar::Windows);
        let server = next_separator(s, 2, Grammar::Windows);
        if server < s.len() {
            lemma_next_separator(s, server + 1, Grammar::Windows);
        }
    }
    if s.len() >= 4 {
        lemma_next_separator(s, 4, Grammar::Windows);
        lemma_next_separator(s, 4, Grammar::Verbatim);
    }
    if s.len() >= 8 {
        lemma_next_separator(s, 8, Grammar::Verbatim);
        let server = next_separator(s, 8, Grammar::Verbatim);
        if server < s.len() {
            lemma_next_separator(s, server + 1, Grammar::Verbatim);
        }
    }
}

proof fn lemma_trimmed_is_named(s: Seq<char>, head: int, end: int, grammar: Grammar)
    requires
        0 <= head <= end <= s.len(),
    ensures
        ({
            let e = trimmed_end(s, head, end, grammar);
            e > head ==> last_start(s, head, e, grammar) < e
        }),
    decreases end - head,
{
    if end > head {
        lemma_last_start(s, head, end, grammar);
        let start = last_start(s, head, end, grammar);
        if start > head {
            lemma_trimmed_is_named(s, head, start - 1, grammar);
        }
    }
}

/// Where no drive, share or device is written there is no prefix, and a drive is one of two
/// characters.
pub proof fn prefixes_are_written(s: Seq<char>)
    ensures
        drive_at(s, 0) ==> prefix_end(s) == 2,
        s.len() < 2 ==> prefix_end(s) == 0,
        s.len() >= 2 && s[1] != ':' && !((s[0] == '/' || s[0] == '\\') && (s[1] == '/' || s[1]
            == '\\')) ==> prefix_end(s) == 0,
{
}

proof fn lemma_finds_separator(s: Seq<char>, from: int, at: int, grammar: Grammar)
    requires
        0 <= from <= at <= s.len(),
        at < s.len() ==> separates(s[at], grammar),
        forall|i: int| from <= i < at ==> !separates(#[trigger] s[i], grammar),
    ensures
        next_separator(s, from, grammar) == at,
    decreases at - from,
{
    if from < at {
        lemma_finds_separator(s, from + 1, at, grammar);
    }
}

/// The prefix of a share is the server and the share, however the path goes on.
pub proof fn shares_are_prefixes(server: Seq<char>, share: Seq<char>, rest: Seq<char>)
    requires
        server.len() > 0,
        share.len() > 0,
        server != seq!['.'],
        server != seq!['?'],
        forall|i: int|
            0 <= i < server.len() ==> !separates(#[trigger] server[i], Grammar::Windows),
        forall|i: int| 0 <= i < share.len() ==> !separates(#[trigger] share[i], Grammar::Windows),
        rest.len() > 0 ==> separates(rest[0], Grammar::Windows),
    ensures
        prefix_end(seq!['\\', '\\'] + server + seq!['\\'] + share + rest) == 3 + server.len()
            + share.len(),
{
    let s = seq!['\\', '\\'] + server + seq!['\\'] + share + rest;
    let middle = 2 + server.len() as int;
    let end = middle + 1 + share.len();
    assert(s[0] == '\\' && s[1] == '\\');
    assert(s[2] == server[0]);
    assert(s[middle] == '\\');
    assert forall|i: int| 2 <= i < middle implies !separates(#[trigger] s[i], Grammar::Windows) by {
        assert(s[i] == server[i - 2]);
    }
    assert forall|i: int| middle + 1 <= i < end implies !separates(
        #[trigger] s[i],
        Grammar::Windows,
    ) by {
        assert(s[i] == share[i - middle - 1]);
    }
    if rest.len() > 0 {
        assert(s[end] == rest[0]);
    }
    lemma_finds_separator(s, 2, middle, Grammar::Windows);
    lemma_finds_separator(s, middle + 1, end, Grammar::Windows);
    if server.len() == 1 {
        assert(server =~= seq![server[0]]);
    } else {
        assert(s[3] == server[1]);
    }
}

/// A name joined to a directory on a drive is found there again, and is written behind one
/// separator.
pub proof fn names_are_found_on_their_drive(base: Seq<char>, name: Seq<char>)
    requires
        drive_at(base, 0),
        base.len() > 2,
        !separates(base.last(), Grammar::Windows),
        name.len() > 0,
        name != seq!['.'],
        name != seq!['.', '.'],
        !drive_at(name, 0),
        forall|i: int| 0 <= i < name.len() ==> !separates(#[trigger] name[i], Grammar::Windows),
    ensures
        host_joined(base, name, true) == base + seq!['\\'] + name,
        windows_name(base + seq!['\\'] + name) == Some(name),
{
    let s = base + seq!['\\'] + name;
    let at = base.len() as int;
    assert(base.push('\\') + name =~= s);
    assert(!separates(name[0], Grammar::Windows));
    assert(s[0] == base[0] && s[1] == base[1] && s[2] == base[2]);
    assert(s[at] == '\\');
    assert(drive_at(s, 0));
    assert(prefix_end(s) == 2);
    let head = head_end(s, true);
    assert(head <= at + 1);
    assert forall|i: int| at + 1 <= i < s.len() implies !separates(
        #[trigger] s[i],
        Grammar::Windows,
    ) by {
        assert(s[i] == name[i - at - 1]);
    }
    lemma_starts_behind(s, head, at + 1, s.len() as int, Grammar::Windows);
    assert(s.subrange(at + 1, s.len() as int) =~= name);
}

proof fn lemma_starts_behind(s: Seq<char>, head: int, at: int, end: int, grammar: Grammar)
    requires
        0 <= head <= at <= end <= s.len(),
        at > head ==> separates(s[at - 1], grammar),
        forall|i: int| at <= i < end ==> !separates(#[trigger] s[i], grammar),
    ensures
        last_start(s, head, end, grammar) == at,
    decreases end - at,
{
    if end > at {
        lemma_starts_behind(s, head, at, end - 1, grammar);
    }
}

/// A path with a drive of its own stands alone; one that begins at the root keeps the drive it is
/// joined to and nothing else; a drive by itself and a directory that ends in a separator get no
/// separator more.
pub proof fn paths_are_joined_on_their_drive(base: Seq<char>, child: Seq<char>)
    requires
        drive_at(base, 0),
        child.len() > 0,
    ensures
        drive_at(child, 0) ==> host_joined(base, child, true) == child,
        child[0] == '\\' && (child.len() == 1 || (child[1] != '\\' && child[1] != '/'))
            ==> host_joined(base, child, true) == base.take(2) + child,
        prefix_end(child) == 0 && child[0] != '\\' && child[0] != '/' && (base.len() == 2
            || base.last() == '\\' || base.last() == '/') ==> host_joined(base, child, true)
            == base + child,
{
}

/// On hosts other than Windows paths are joined as text is.
pub proof fn other_hosts_join_as_usual(base: Seq<char>, child: Seq<char>)
    ensures
        host_joined(base, child, false) == joined(base, child),
        host_components(base, false) == components(base),
{
}

/// Below a verbatim path `.` changes nothing, `..` takes the last name away and nothing else, and
/// a name is added.
pub proof fn verbatim_paths_are_walked(parts: Seq<Seq<char>>, name: Seq<char>)
    requires
        name.len() > 0,
        name != seq!['.'],
        name != seq!['.', '.'],
    ensures
        stepped(parts, seq!['.']) == parts,
        stepped(parts, Seq::empty()) == parts,
        stepped(parts, name) == parts.push(name),
        stepped(stepped(parts, name), seq!['.', '.']) == parts,
        stepped(Seq::empty(), seq!['.', '.']) == Seq::<Seq<char>>::empty(),
{
    let up = seq!['.', '.'];
    let here = seq!['.'];
    assert(up.len() == 2 && here.len() == 1);
    assert(parts.push(name).drop_last() =~= parts);
}

/// Paths on a drive are compared without regard to the case of its letter.
pub proof fn drives_have_no_case(s: Seq<char>)
    requires
        drive_at(s, 0),
        'a' <= s[0] <= 'z',
    ensures
        prefix_key(s) == seq![upper(s[0]), ':'],
        prefix_key(s.update(0, upper(s[0]))) == prefix_key(s),
        upper(upper(s[0])) == upper(s[0]),
        upper(s[0]) as int == s[0] as int - 32,
{
    let t = s.update(0, upper(s[0]));
    assert(t[1] == s[1]);
}

/// A path that is elsewhere stays where it is, and everything is below itself.
pub proof fn only_what_is_below_moves(
    path: Seq<char>,
    from: Seq<char>,
    to: Seq<char>,
    windows: bool,
)
    ensures
        is_below(path, path, windows),
        !is_below(path, from, windows) ==> moved(path, from, to, windows) == path,
        is_below(path, from, windows) ==> host_components(from, windows).len()
            <= host_components(path, windows).len() && forall|i: int|
            0 <= i < host_components(from, windows).len() ==> #[trigger] host_components(
                path,
                windows,
            )[i] == host_components(from, windows)[i],
{
    let p = host_components(path, windows);
    let b = host_components(from, windows);
    assert(p.take(p.len() as int) =~= p);
    if is_below(path, from, windows) {
        assert forall|i: int| 0 <= i < b.len() implies #[trigger] p[i] == b[i] by {
            assert(p.take(b.len() as int)[i] == p[i]);
        }
    }
}

} // verus!
