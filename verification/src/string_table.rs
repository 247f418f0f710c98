//! A table from strings to values, in which no key occurs twice.

use crate::entries::{as_map, has_key, key_index, keys_distinct, lemma_lookup_entry};
use crate::text::same_text;
use vstd::prelude::*;

verus! {

/// The views of a list of keys and values.
pub open spec fn pairs_of<V: View>(entries: Seq<(String, V)>) -> Seq<(Seq<char>, V::V)> {
    Seq::new(entries.len(), |i: int| (entries[i].0@, entries[i].1@))
}

/// A table from strings to values. Its view is a map: the order in which it
/// hands its entries out is left open.
pub struct StringTable<V> {
    entries: Vec<(String, V)>,
}

impl<V> StringTable<V> {
    #[verifier::type_invariant]
    closed spec fn inv(self) -> bool {
        forall|i: int, j: int|
            0 <= i < j < self.entries@.len() ==> (#[trigger] self.entries@[i]).0@ != (
            #[trigger] self.entries@[j]).0@
    }
}

impl<V: View> View for StringTable<V> {
    type V = Map<Seq<char>, V::V>;

    closed spec fn view(&self) -> Map<Seq<char>, V::V> {
        as_map(pairs_of(self.entries@))
    }
}

/// The place of `key` in `entries`, or their number where it is not there.
fn find<V: View>(entries: &Vec<(String, V)>, key: &str) -> (at: usize)
    ensures
        at <= entries@.len(),
        at < entries@.len() ==> entries@[at as int].0@ == key@,
        at == entries@.len() ==> !has_key(pairs_of(entries@), key@),
{
    let mut at: usize = 0;
    while at < entries.len()
        invariant
            at <= entries@.len(),
            forall|i: int| 0 <= i < at ==> (#[trigger] entries@[i]).0@ != key@,
        decreases entries@.len() - at,
    {
        if same_text(entries[at].0.as_str(), key) {
            return at;
        }
        at = at + 1;
    }
    proof {
        let pairs = pairs_of(entries@);
        assert forall|i: int| 0 <= i < pairs.len() implies (#[trigger] pairs[i]).0 != key@ by {
            assert(entries@[i].0@ != key@);
        }
    }
    at
}

impl<V: View> StringTable<V> {
    /// A table without entries.
    pub fn new() -> (out: Self)
        ensures
            out@ == Map::<Seq<char>, V::V>::empty(),
    {
        let out = StringTable { entries: Vec::new() };
        proof {
            assert(out@ =~= Map::<Seq<char>, V::V>::empty());
        }
        out
    }

    /// Gives `key` the value `value`; an earlier value of the key is dropped.
    pub fn insert(&mut self, key: String, value: V)
        ensures
            final(self)@ == old(self)@.insert(key@, value@),
    {
        proof {
            use_type_invariant(&*self);
        }
        let mut entries: Vec<(String, V)> = Vec::new();
        std::mem::swap(&mut entries, &mut self.entries);
        let ghost before = pairs_of(entries@);
        let at: usize = find(&entries, key.as_str());
        let ghost k = key@;
        let ghost v = value@;
        if at < entries.len() {
            entries.set(at, (key, value));
            proof {
                assert(pairs_of(entries@) =~= before.update(at as int, (k, v)));
                lemma_update(before, at as int, v);
            }
        } else {
            entries.push((key, value));
            proof {
                assert(pairs_of(entries@) =~= before.push((k, v)));
                lemma_push(before, k, v);
            }
        }
        proof {
            assert forall|i: int, j: int| 0 <= i < j < entries@.len() implies (
            #[trigger] entries@[i]).0@ != (#[trigger] entries@[j]).0@ by {
                assert(pairs_of(entries@)[i].0 != pairs_of(entries@)[j].0);
            }
        }
        self.entries = entries;
    }

    /// Takes `key` out of the table, and hands its value back where there was
    /// one.
    pub fn remove(&mut self, key: &str) -> (value: Option<V>)
        ensures
            final(self)@ == old(self)@.remove(key@),
            match value {
                Some(v) => old(self)@.contains_key(key@) && old(self)@[key@] == v@,
                None => !old(self)@.contains_key(key@),
            },
    {
        proof {
            use_type_invariant(&*self);
        }
        let mut entries: Vec<(String, V)> = Vec::new();
        std::mem::swap(&mut entries, &mut self.entries);
        let ghost before = pairs_of(entries@);
        let at: usize = find(&entries, key);
        if at < entries.len() {
            let (_, value) = entries.remove(at);
            proof {
                assert(pairs_of(entries@) =~= before.remove(at as int));
                lemma_remove(before, at as int);
                lemma_lookup_entry(before, at as int);
                assert forall|i: int, j: int| 0 <= i < j < entries@.len() implies (
                #[trigger] entries@[i]).0@ != (#[trigger] entries@[j]).0@ by {
                    assert(pairs_of(entries@)[i].0 != pairs_of(entries@)[j].0);
                }
            }
            self.entries = entries;
            Some(value)
        } else {
            self.entries = entries;
            proof {
                assert(self@ =~= old(self)@.remove(key@));
            }
            None
        }
    }

    /// The entries of the table, each key once, in some order.
    pub fn into_entries(self) -> (out: Vec<(String, V)>)
        ensures
            keys_distinct(pairs_of(out@)),
            as_map(pairs_of(out@)) == self@,
    {
        proof {
            use_type_invariant(&self);
        }
        self.entries
    }
}

/// Taking an entry out takes its key out.
proof fn lemma_remove<V>(entries: Seq<(Seq<char>, V)>, at: int)
    requires
        keys_distinct(entries),
        0 <= at < entries.len(),
    ensures
        keys_distinct(entries.remove(at)),
        as_map(entries.remove(at)) == as_map(entries).remove(entries[at].0),
{
    let after = entries.remove(at);
    let gone = entries[at].0;
    assert forall|i: int, j: int| 0 <= i < j < after.len() implies (#[trigger] after[i]).0 != (
    #[trigger] after[j]).0 by {
        let i0 = if i < at { i } else { i + 1 };
        let j0 = if j < at { j } else { j + 1 };
        assert(entries[i0].0 != entries[j0].0);
    }
    assert forall|k: Seq<char>| #[trigger] has_key(after, k) == (has_key(entries, k) && k != gone) by {
        if has_key(entries, k) && k != gone {
            let i = key_index(entries, k);
            if i < at {
                assert(after[i].0 == k);
            } else {
                assert(after[i - 1].0 == k);
            }
        }
        if has_key(after, k) {
            let i = key_index(after, k);
            let i0 = if i < at { i } else { i + 1 };
            assert(entries[i0].0 == k);
            if i0 < at {
                assert(entries[i0].0 != entries[at].0);
            } else {
                assert(entries[at].0 != entries[i0].0);
            }
        }
    }
    assert forall|k: Seq<char>| has_key(after, k) implies as_map(after)[k] == as_map(
        entries,
    ).remove(gone)[k] by {
        let i = key_index(after, k);
        lemma_lookup_entry(after, i);
        lemma_lookup_entry(
            entries,
            if i < at {
                i
            } else {
                i + 1
            },
        );
    }
    assert(as_map(after) =~= as_map(entries).remove(gone));
}

/// Replacing the value of an entry replaces the value of its key.
proof fn lemma_update<V>(entries: Seq<(Seq<char>, V)>, at: int, value: V)
    requires
        keys_distinct(entries),
        0 <= at < entries.len(),
    ensures
        keys_distinct(entries.update(at, (entries[at].0, value))),
        as_map(entries.update(at, (entries[at].0, value))) == as_map(entries).insert(
            entries[at].0,
            value,
        ),
{
    let after = entries.update(at, (entries[at].0, value));
    assert(keys_distinct(after));
    lemma_same_keys(entries, after);
    assert forall|key: Seq<char>| has_key(after, key) implies as_map(after)[key] == as_map(
        entries,
    ).insert(entries[at].0, value)[key] by {
        let i = key_index(after, key);
        lemma_lookup_entry(after, i);
        lemma_lookup_entry(entries, i);
        lemma_lookup_entry(entries, at);
    }
    lemma_lookup_entry(entries, at);
    assert(as_map(after) =~= as_map(entries).insert(entries[at].0, value));
}

/// Lists with the same keys at the same places have the same keys.
proof fn lemma_same_keys<V>(a: Seq<(Seq<char>, V)>, b: Seq<(Seq<char>, V)>)
    requires
        a.len() == b.len(),
        forall|i: int| 0 <= i < a.len() ==> (#[trigger] a[i]).0 == (#[trigger] b[i]).0,
    ensures
        forall|key: Seq<char>| #[trigger] has_key(a, key) == has_key(b, key),
{
    assert forall|key: Seq<char>| #[trigger] has_key(a, key) == has_key(b, key) by {
        if has_key(a, key) {
            assert(b[key_index(a, key)].0 == key);
        }
        if has_key(b, key) {
            assert(a[key_index(b, key)].0 == key);
        }
    }
}

/// An entry with a new key adds that key.
proof fn lemma_push<V>(entries: Seq<(Seq<char>, V)>, key: Seq<char>, value: V)
    requires
        keys_distinct(entries),
        !has_key(entries, key),
    ensures
        keys_distinct(entries.push((key, value))),
        as_map(entries.push((key, value))) == as_map(entries).insert(key, value),
{
    let after = entries.push((key, value));
    assert(keys_distinct(after)) by {
        assert forall|i: int, j: int| 0 <= i < j < after.len() implies (#[trigger] after[i]).0 != (
        #[trigger] after[j]).0 by {
            assert(entries[i].0 == after[i].0);
        }
    }
    assert forall|k: Seq<char>| #[trigger] has_key(after, k) == (has_key(entries, k) || k == key) by {
        if has_key(entries, k) {
            let i = key_index(entries, k);
            assert(after[i].0 == k);
        }
        if k == key {
            assert(after[entries.len() as int].0 == k);
        }
        if has_key(after, k) {
            let i = key_index(after, k);
            if i < entries.len() {
                assert(entries[i].0 == k);
            }
        }
    }
    assert forall|k: Seq<char>| has_key(after, k) implies as_map(after)[k] == as_map(
        entries,
    ).insert(key, value)[k] by {
        let i = key_index(after, k);
        lemma_lookup_entry(after, i);
        if i < entries.len() {
            lemma_lookup_entry(entries, i);
        }
    }
    assert(as_map(after) =~= as_map(entries).insert(key, value));
}

/// The views of a list of keys and values are those of each key and each value,
/// at its place.
pub proof fn law_pairs<V: View>(entries: Seq<(String, V)>)
    ensures
        pairs_of(entries).len() == entries.len(),
        forall|i: int|
            0 <= i < entries.len() ==> (#[trigger] pairs_of(entries)[i]) == (
                entries[i].0@,
                entries[i].1@,
            ),
{
}

} // verus!
