//! Paths as text: `/`-separated components, joining and prefixes.

use vstd::prelude::*;

use crate::text::{chars_of, join, same, string_of, views};

verus! {

/// The pieces between separators, in order; one more than there are separators.
pub open spec fn split(s: Seq<char>, sep: char) -> Seq<Seq<char>>
    decreases s.len(),
{
    if s.len() == 0 {
        seq![Seq::empty()]
    } else {
        let front = split(s.drop_last(), sep);
        if s.last() == sep {
            front.push(Seq::empty())
        } else {
            front.drop_last().push(front.last().push(s.last()))
        }
    }
}

/// Whether a piece between separators names something.
pub open spec fn is_named(piece: Seq<char>) -> bool {
    piece.len() > 0 && piece != seq!['.']
}

/// The components of a path: `/` first for an absolute path, then every named piece. A relative
/// path that begins with `.` keeps that first component.
pub open spec fn components(path: Seq<char>) -> Seq<Seq<char>> {
    let pieces = split(path, '/');
    let named = pieces.filter(|p: Seq<char>| is_named(p));
    if path.len() > 0 && path[0] == '/' {
        seq![seq!['/']] + named
    } else if pieces[0] == seq!['.'] {
        seq![seq!['.']] + named
    } else {
        named
    }
}

/// The last component of a path, unless it is the root, `.` or `..`.
pub open spec fn file_name(path: Seq<char>) -> Option<Seq<char>> {
    last_name(components(path))
}

/// The last component, unless it is the root, `.` or `..`.
pub open spec fn last_name(parts: Seq<Seq<char>>) -> Option<Seq<char>> {
    if parts.len() == 0 || parts.last() == seq!['/'] || parts.last() == seq!['.'] || parts.last()
        == seq!['.', '.'] {
        None
    } else {
        Some(parts.last())
    }
}

/// The name of the directory that holds a path.
pub open spec fn parent_name(path: Seq<char>) -> Option<Seq<char>> {
    let parts = components(path);
    if parts.len() == 0 {
        None
    } else {
        last_name(parts.drop_last())
    }
}

/// `child` below `base`; an absolute `child` stands alone.
pub open spec fn joined(base: Seq<char>, child: Seq<char>) -> Seq<char> {
    if child.len() > 0 && child[0] == '/' {
        child
    } else if base.len() == 0 || base.last() == '/' {
        base + child
    } else {
        base.push('/') + child
    }
}

/// No piece between separators holds one.
pub proof fn lemma_pieces_hold_no_separator(s: Seq<char>, sep: char, i: int)
    requires
        0 <= i < split(s, sep).len(),
    ensures
        !split(s, sep)[i].contains(sep),
    decreases s.len(),
{
    if s.len() > 0 {
        lemma_split_len(s.drop_last(), sep);
        let front = split(s.drop_last(), sep);
        let all = split(s, sep);
        if s.last() == sep {
            if i < front.len() {
                lemma_pieces_hold_no_separator(s.drop_last(), sep, i);
                assert(all[i] == front[i]);
            }
        } else if i < front.len() - 1 {
            lemma_pieces_hold_no_separator(s.drop_last(), sep, i);
            assert(all[i] == front[i]);
        } else {
            lemma_pieces_hold_no_separator(s.drop_last(), sep, front.len() - 1);
            assert(all[i] == front.last().push(s.last()));
            assert forall|k: int| 0 <= k < all[i].len() implies all[i][k] != sep by {
                if k < front.last().len() {
                    assert(front.last()[k] == all[i][k]);
                    if front.last()[k] == sep {
                        assert(front.last().contains(sep));
                    }
                }
            }
        }
    }
}

/// A file name holds no separator, so it stays in the directory it is joined to.
pub proof fn file_names_stay_in_their_directory(path: Seq<char>)
    requires
        file_name(path) is Some,
    ensures
        !file_name(path)->0.contains('/'),
        file_name(path)->0.len() > 0,
        file_name(path)->0 != seq!['.', '.'],
{
    let pieces = split(path, '/');
    let named = |p: Seq<char>| is_named(p);
    let kept = pieces.filter(named);
    let name = file_name(path)->0;
    lemma_split_len(path, '/');
    if kept.len() > 0 {
        broadcast use vstd::seq_lib::group_filter_ensures;
        assert(name == kept.last());
        assert(kept.contains(kept[kept.len() - 1]));
        pieces.lemma_filter_contains_rev(named, kept.last());
        let i = choose|i: int| 0 <= i < pieces.len() && pieces[i] == kept.last();
        lemma_pieces_hold_no_separator(path, '/', i);
    }
}

/// Text without a separator is one piece.
pub proof fn lemma_split_one(s: Seq<char>, sep: char)
    requires
        forall|i: int| 0 <= i < s.len() ==> s[i] != sep,
    ensures
        split(s, sep) == seq![s],
    decreases s.len(),
{
    if s.len() > 0 {
        let front = s.drop_last();
        assert forall|i: int| 0 <= i < front.len() implies front[i] != sep by {
            assert(front[i] == s[i]);
        }
        lemma_split_one(front, sep);
        assert(front.push(s.last()) =~= s);
        assert(split(s, sep) =~= seq![s]);
    } else {
        assert(s =~= Seq::<char>::empty());
    }
}

/// A piece behind a separator is one more piece.
pub proof fn lemma_split_more(a: Seq<char>, sep: char, b: Seq<char>)
    requires
        forall|i: int| 0 <= i < b.len() ==> b[i] != sep,
    ensures
        split(a + seq![sep] + b, sep) == split(a, sep).push(b),
    decreases b.len(),
{
    let all = a + seq![sep] + b;
    if b.len() == 0 {
        assert(all.drop_last() =~= a);
        assert(b =~= Seq::<char>::empty());
    } else {
        let front = b.drop_last();
        assert forall|i: int| 0 <= i < front.len() implies front[i] != sep by {
            assert(front[i] == b[i]);
        }
        lemma_split_more(a, sep, front);
        assert(all.drop_last() =~= a + seq![sep] + front);
        assert(front.push(b.last()) =~= b);
        assert(split(all, sep) =~= split(a, sep).push(b));
    }
}

/// What was joined comes apart again.
pub proof fn lemma_split_join(parts: Seq<Seq<char>>, sep: char)
    requires
        parts.len() > 0,
        forall|k: int, i: int|
            0 <= k < parts.len() && 0 <= i < parts[k].len() ==> #[trigger] parts[k][i] != sep,
    ensures
        split(join(parts, seq![sep]), sep) == parts,
    decreases parts.len(),
{
    if parts.len() == 1 {
        lemma_split_one(parts[0], sep);
        assert(seq![parts[0]] =~= parts);
    } else {
        let front = parts.drop_last();
        assert forall|k: int, i: int|
            0 <= k < front.len() && 0 <= i < front[k].len() implies #[trigger] front[k][i] != sep by {
            assert(front[k] == parts[k]);
        }
        lemma_split_join(front, sep);
        assert(parts.last() == parts[parts.len() - 1]);
        lemma_split_more(join(front, seq![sep]), sep, parts.last());
        assert(front.push(parts.last()) =~= parts);
    }
}

proof fn lemma_split_len(s: Seq<char>, sep: char)
    ensures
        split(s, sep).len() >= 1,
    decreases s.len(),
{
    if s.len() > 0 {
        lemma_split_len(s.drop_last(), sep);
    }
}

/// The pieces between separators.
pub fn split_text(s: &str, sep: char) -> (r: Vec<String>)
    ensures
        views(r@) == split(s@, sep),
{
    let chars = chars_of(s);
    let mut done: Vec<String> = Vec::new();
    let mut current: Vec<char> = Vec::new();
    let mut i: usize = 0;
    assert(s@.take(0) =~= Seq::<char>::empty());
    assert(views(done@).push(current@) =~= seq![Seq::empty()]);
    while i < chars.len()
        invariant
            i <= chars@.len(),
            chars@ == s@,
            split(s@.take(i as int), sep) == views(done@).push(current@),
        decreases chars@.len() - i,
    {
        let c = chars[i];
        let ghost before = views(done@).push(current@);
        assert(s@.take(i + 1).drop_last() =~= s@.take(i as int));
        assert(before.drop_last() =~= views(done@));
        if c == sep {
            let piece = string_of(current.as_slice());
            done.push(piece);
            current = Vec::new();
            assert(views(done@) =~= before);
        } else {
            current.push(c);
        }
        i = i + 1;
    }
    assert(s@.take(i as int) =~= s@);
    let ghost before = views(done@).push(current@);
    let piece = string_of(current.as_slice());
    done.push(piece);
    assert(views(done@) =~= before);
    done
}

/// The components of a path.
pub fn path_components(path: &str) -> (r: Vec<String>)
    ensures
        views(r@) == components(path@),
{
    let pieces = split_text(path, '/');
    proof {
        lemma_split_len(path@, '/');
    }
    let ghost named = |p: Seq<char>| is_named(p);
    let chars = chars_of(path);
    let mut out: Vec<String> = Vec::new();
    let dot = ".";
    proof {
        reveal_strlit(".");
        reveal_strlit("/");
        assert(dot@ =~= seq!['.']);
        assert("/"@ =~= seq!['/']);
        assert(views(pieces@)[0] == pieces@[0]@);
    }
    if chars.len() > 0 && chars[0] == '/' {
        out.push("/".to_owned());
    } else if same(pieces[0].as_str(), dot) {
        out.push(dot.to_owned());
    }
    let ghost head = views(out@);
    let mut i: usize = 0;
    assert(views(pieces@).take(0).filter(named) =~= Seq::empty()) by {
        reveal(Seq::filter);
    }
    assert(head + Seq::<Seq<char>>::empty() =~= head);
    while i < pieces.len()
        invariant
            i <= pieces@.len(),
            named == (|p: Seq<char>| is_named(p)),
            dot@ == seq!['.'],
            views(out@) == head + views(pieces@).take(i as int).filter(named),
        decreases pieces@.len() - i,
    {
        let ghost before = out@;
        let ghost all = views(pieces@);
        proof {
            reveal(Seq::filter);
            assert(all.take(i + 1).drop_last() =~= all.take(i as int));
            assert(all.take(i + 1).last() == pieces@[i as int]@);
        }
        if !pieces[i].as_str().is_empty() && !same(pieces[i].as_str(), dot) {
            out.push(pieces[i].clone());
            assert(named(pieces@[i as int]@));
            assert(views(out@) =~= views(before).push(pieces@[i as int]@));
            assert(views(out@) =~= head + all.take(i as int).filter(named).push(
                pieces@[i as int]@,
            ));
        } else {
            assert(!named(pieces@[i as int]@));
        }
        i = i + 1;
    }
    assert(views(pieces@).take(i as int) =~= views(pieces@));
    assert(head.len() == 0 ==> head + views(pieces@).filter(named) =~= views(pieces@).filter(named));
    assert(head.len() == 1 ==> head =~= seq![head[0]]);
    out
}

/// The last of the components, unless it is the root, `.` or `..`.
fn last_name_of(parts: &[String]) -> (r: Option<String>)
    ensures
        r is Some <==> last_name(views(parts@)) is Some,
        r matches Some(name) ==> last_name(views(parts@)) == Some(name@),
{
    if parts.len() == 0 {
        return None;
    }
    let last = &parts[parts.len() - 1];
    proof {
        reveal_strlit(".");
        reveal_strlit("/");
        reveal_strlit("..");
        assert("."@ =~= seq!['.']);
        assert("/"@ =~= seq!['/']);
        assert(".."@ =~= seq!['.', '.']);
        assert(views(parts@).last() == last@);
    }
    if same(last.as_str(), "/") || same(last.as_str(), ".") || same(last.as_str(), "..") {
        None
    } else {
        Some(last.clone())
    }
}

/// The last component of a path, unless it is the root, `.` or `..`.
pub fn path_file_name(path: &str) -> (r: Option<String>)
    ensures
        r is Some <==> file_name(path@) is Some,
        r matches Some(name) ==> file_name(path@) == Some(name@),
{
    let parts = path_components(path);
    last_name_of(parts.as_slice())
}

/// The name of the directory that holds a path.
pub fn path_parent_name(path: &str) -> (r: Option<String>)
    ensures
        r is Some <==> parent_name(path@) is Some,
        r matches Some(name) ==> parent_name(path@) == Some(name@),
{
    let mut parts = path_components(path);
    let ghost all = views(parts@);
    if parts.len() == 0 {
        return None;
    }
    let _ = parts.pop();
    assert(views(parts@) =~= all.drop_last());
    last_name_of(parts.as_slice())
}

/// `child` below `base`.
pub fn path_join(base: &str, child: &str) -> (r: String)
    ensures
        r@ == joined(base@, child@),
{
    let b = chars_of(base);
    let c = chars_of(child);
    if c.len() > 0 && c[0] == '/' {
        return child.to_owned();
    }
    let mut out = base.to_owned();
    if b.len() > 0 && b[b.len() - 1] != '/' {
        out.push('/');
    }
    out.append(child);
    out
}

proof fn lemma_filter_push(s: Seq<Seq<char>>, x: Seq<char>, keeps: spec_fn(Seq<char>) -> bool)
    ensures
        s.push(x).filter(keeps) == if keeps(x) {
            s.filter(keeps).push(x)
        } else {
            s.filter(keeps)
        },
{
    reveal(Seq::filter);
    assert(s.push(x).drop_last() =~= s);
}

/// A name joined to a directory is one component more, the last, whatever separators the directory
/// ends in.
pub proof fn children_are_one_component_more(base: Seq<char>, name: Seq<char>)
    requires
        name.len() > 0,
        name != seq!['.'],
        !name.contains('/'),
    ensures
        components(joined(base, name)) == components(base).push(name),
        name != seq!['.', '.'] ==> file_name(joined(base, name)) == Some(name),
        parent_name(joined(base, name)) == file_name(base),
{
    let keeps = |p: Seq<char>| is_named(p);
    assert forall|i: int| 0 <= i < name.len() implies name[i] != '/' by {
        if name[i] == '/' {
            assert(name.contains('/'));
        }
    }
    assert(name[0] != '/');
    let path = joined(base, name);
    if base.len() == 0 {
        assert(path =~= name);
        assert(base =~= Seq::empty());
        lemma_split_one(name, '/');
        let none = Seq::<Seq<char>>::empty();
        assert(none.push(name) =~= seq![name]);
        assert(none.push(Seq::empty()) =~= seq![Seq::<char>::empty()]);
        lemma_filter_push(none, name, keeps);
        lemma_filter_push(none, Seq::empty(), keeps);
        reveal(Seq::filter);
        assert(none.filter(keeps) =~= none);
        assert(split(base, '/')[0] != seq!['.']);
    } else {
        let a = if base.last() == '/' {
            base.drop_last()
        } else {
            base
        };
        assert(path =~= a + seq!['/'] + name);
        lemma_split_more(a, '/', name);
        lemma_split_len(a, '/');
        lemma_filter_push(split(a, '/'), name, keeps);
        lemma_filter_push(split(a, '/'), Seq::empty(), keeps);
        assert(path[0] == base[0]);
        assert(split(path, '/')[0] == split(a, '/')[0]);
        assert(split(base, '/')[0] == split(a, '/')[0]);
    }
    assert(components(path) =~= components(base).push(name));
    assert(components(base).push(name).drop_last() =~= components(base));
}

/// A path that begins at the root stands alone, and text that ends in a separator gets no other.
pub proof fn paths_are_joined_by_one_separator(base: Seq<char>, child: Seq<char>)
    requires
        child.len() > 0,
    ensures
        child[0] == '/' ==> joined(base, child) == child,
        child[0] != '/' && base.len() > 0 && base.last() != '/' ==> joined(base, child) == base
            + seq!['/'] + child,
        child[0] != '/' && base.len() > 0 && base.last() == '/' ==> joined(base, child) == base
            + child,
        child[0] != '/' && base.len() == 0 ==> joined(base, child) == child,
{
    assert(base.push('/') =~= base + seq!['/']);
    assert(Seq::<char>::empty() + child =~= child);
    if base.len() == 0 {
        assert(base =~= Seq::empty());
    }
}

} // verus!
