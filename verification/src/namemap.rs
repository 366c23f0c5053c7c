//! A map from names to values, with at most one value per name.

use vstd::prelude::*;

use crate::text::same;

verus! {

/// A map keyed by text.
pub struct NameMap<V> {
    entries: Vec<(String, V)>,
}

/// Whether no name occurs twice.
pub open spec fn names_once<V>(entries: Seq<(String, V)>) -> bool {
    forall|i: int, j: int|
        0 <= i < entries.len() && 0 <= j < entries.len() && (#[trigger] entries[i]).0@ == (
        #[trigger] entries[j]).0@ ==> i == j
}

/// Whether entry `i` carries the name `k`.
pub open spec fn named_at<V>(entries: Seq<(String, V)>, k: Seq<char>, i: int) -> bool {
    0 <= i < entries.len() && entries[i].0@ == k
}

/// The map that a list of entries stands for.
pub open spec fn entries_map<V>(entries: Seq<(String, V)>) -> Map<Seq<char>, V> {
    Map::new(
        |k: Seq<char>| exists|i: int| named_at(entries, k, i),
        |k: Seq<char>| entries[choose|i: int| named_at(entries, k, i)].1,
    )
}

impl<V> View for NameMap<V> {
    type V = Map<Seq<char>, V>;

    closed spec fn view(&self) -> Map<Seq<char>, V> {
        entries_map(self.entries@)
    }
}

impl<V> NameMap<V> {
    #[verifier::type_invariant]
    closed spec fn unique(&self) -> bool {
        names_once(self.entries@)
    }

    /// The empty map.
    pub fn new() -> (r: Self)
        ensures
            r@ == Map::<Seq<char>, V>::empty(),
    {
        let r = NameMap { entries: Vec::new() };
        assert(r@ =~= Map::empty()) by {
            assert forall|k: Seq<char>| !r@.dom().contains(k) by {
                assert(forall|i: int| !named_at(r.entries@, k, i));
            }
        }
        r
    }

    /// The value of a name.
    pub fn get(&self, name: &str) -> (r: Option<&V>)
        ensures
            match r {
                Some(v) => self@.dom().contains(name@) && self@[name@] == *v,
                None => !self@.dom().contains(name@),
            },
    {
        proof {
            use_type_invariant(self);
        }
        let mut i: usize = 0;
        while i < self.entries.len()
            invariant
                i <= self.entries@.len(),
                names_once(self.entries@),
                forall|k: int| 0 <= k < i ==> (#[trigger] self.entries@[k]).0@ != name@,
            decreases self.entries@.len() - i,
        {
            if same(self.entries[i].0.as_str(), name) {
                assert(named_at(self.entries@, name@, i as int));
                return Some(&self.entries[i].1);
            }
            i = i + 1;
        }
        assert(forall|k: int| !named_at(self.entries@, name@, k));
        None
    }

    /// The map in which a name has the value, in place of the one it had.
    pub fn with(self, name: String, value: V) -> (r: Self)
        ensures
            r@ == self@.insert(name@, value),
    {
        proof {
            use_type_invariant(&self);
        }
        let mut entries = self.entries;
        let ghost before = entries@;
        let mut i: usize = 0;
        while i < entries.len()
            invariant
                i <= entries@.len(),
                before == entries@,
                forall|k: int| 0 <= k < i ==> (#[trigger] entries@[k]).0@ != name@,
            ensures
                i < entries@.len() ==> entries@[i as int].0@ == name@,
            decreases entries@.len() - i,
        {
            if same(entries[i].0.as_str(), name.as_str()) {
                break;
            }
            i = i + 1;
        }
        proof {
            lemma_entry_set(before, i as int, (name, value));
        }
        if i < entries.len() {
            entries.set(i, (name, value));
        } else {
            entries.push((name, value));
        }
        NameMap { entries }
    }
}

impl<V> NameMap<V> {
    /// The names with their values, each name once.
    pub fn entries(&self) -> (r: &Vec<(String, V)>)
        ensures
            names_once(r@),
            entries_map(r@) == self@,
    {
        proof {
            use_type_invariant(self);
        }
        &self.entries
    }
}

/// The entries with `entry` at position `at`, or at the end.
spec fn entry_set<V>(entries: Seq<(String, V)>, at: int, entry: (String, V)) -> Seq<(String, V)> {
    if at < entries.len() {
        entries.update(at, entry)
    } else {
        entries.push(entry)
    }
}

proof fn lemma_entry_set<V>(entries: Seq<(String, V)>, at: int, entry: (String, V))
    requires
        names_once(entries),
        0 <= at <= entries.len(),
        forall|k: int| 0 <= k < at ==> (#[trigger] entries[k]).0@ != entry.0@,
        at < entries.len() ==> entries[at].0@ == entry.0@,
    ensures
        names_once(entry_set(entries, at, entry)),
        entries_map(entry_set(entries, at, entry)) == entries_map(entries).insert(
            entry.0@,
            entry.1,
        ),
{
    let after = entry_set(entries, at, entry);
    let n = entry.0@;
    assert(named_at(after, n, at));
    assert forall|k: Seq<char>| #[trigger] entries_map(after).dom().contains(k) == entries_map(
        entries,
    ).insert(n, entry.1).dom().contains(k) by {
        if entries_map(entries).dom().contains(k) {
            let j = choose|j: int| named_at(entries, k, j);
            assert(named_at(after, k, j));
        }
        if entries_map(after).dom().contains(k) && k != n {
            let j = choose|j: int| named_at(after, k, j);
            assert(named_at(entries, k, j));
        }
    }
    assert forall|k: Seq<char>| #[trigger] entries_map(after).dom().contains(k) implies entries_map(
        after,
    )[k] == entries_map(entries).insert(n, entry.1)[k] by {
        let j = choose|j: int| named_at(after, k, j);
        if k == n {
            assert(after[j].0@ == after[at].0@);
            assert(j == at);
        } else {
            assert(named_at(entries, k, j));
            let j2 = choose|j2: int| named_at(entries, k, j2);
            assert(entries[j].0@ == entries[j2].0@);
        }
    }
    assert(entries_map(after) =~= entries_map(entries).insert(n, entry.1));
}

} // verus!
