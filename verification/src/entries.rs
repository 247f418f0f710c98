//! Lists of entries, each a key and a value.

use vstd::prelude::*;

verus! {

/// Whether some entry has the key `key`.
pub open spec fn has_key<V>(entries: Seq<(Seq<char>, V)>, key: Seq<char>) -> bool {
    exists|i: int| 0 <= i < entries.len() && (#[trigger] entries[i]).0 == key
}

/// The place of the entry with the key `key`.
pub open spec fn key_index<V>(entries: Seq<(Seq<char>, V)>, key: Seq<char>) -> int
    recommends
        has_key(entries, key),
{
    choose|i: int| 0 <= i < entries.len() && (#[trigger] entries[i]).0 == key
}

/// The value of the entry with the key `key`.
pub open spec fn lookup<V>(entries: Seq<(Seq<char>, V)>, key: Seq<char>) -> Option<V> {
    if has_key(entries, key) {
        Some(entries[key_index(entries, key)].1)
    } else {
        None
    }
}

/// The entries after `key` was given the value `value`: in its place where the
/// key was there, else at the end.
pub open spec fn with_entry<V>(entries: Seq<(Seq<char>, V)>, key: Seq<char>, value: V) -> Seq<
    (Seq<char>, V),
> {
    if has_key(entries, key) {
        entries.update(key_index(entries, key), (key, value))
    } else {
        entries.push((key, value))
    }
}

/// Whether no key occurs twice.
pub open spec fn keys_distinct<V>(entries: Seq<(Seq<char>, V)>) -> bool {
    forall|i: int, j: int|
        0 <= i < j < entries.len() ==> (#[trigger] entries[i]).0 != (#[trigger] entries[j]).0
}

/// The map that a list of entries stands for.
pub open spec fn as_map<V>(entries: Seq<(Seq<char>, V)>) -> Map<Seq<char>, V> {
    Map::new(
        |key: Seq<char>| has_key(entries, key),
        |key: Seq<char>| entries[key_index(entries, key)].1,
    )
}

/// Where no key occurs twice, every entry is found under its key.
pub proof fn lemma_lookup_entry<V>(entries: Seq<(Seq<char>, V)>, i: int)
    requires
        keys_distinct(entries),
        0 <= i < entries.len(),
    ensures
        has_key(entries, entries[i].0),
        key_index(entries, entries[i].0) == i,
        lookup(entries, entries[i].0) == Some(entries[i].1),
{
    let key = entries[i].0;
    assert(has_key(entries, key));
    let j = key_index(entries, key);
    assert(entries[j].0 == key);
    if j < i {
        assert(entries[j].0 != entries[i].0);
    }
    if i < j {
        assert(entries[i].0 != entries[j].0);
    }
}

/// Looking a key up finds the value of the entry with that key where no two
/// entries have the same key, and nothing exactly where no entry has it.
pub proof fn law_lookup<V>(entries: Seq<(Seq<char>, V)>, key: Seq<char>)
    requires
        forall|i: int, j: int|
            0 <= i < j < entries.len() ==> (#[trigger] entries[i]).0 != (#[trigger] entries[j]).0,
    ensures
        forall|i: int|
            0 <= i < entries.len() && (#[trigger] entries[i]).0 == key ==> lookup(entries, key)
                == Some(entries[i].1),
        lookup(entries, key) is None <==> (forall|i: int|
            0 <= i < entries.len() ==> (#[trigger] entries[i]).0 != key),
{
    assert forall|i: int| 0 <= i < entries.len() && (#[trigger] entries[i]).0 == key implies lookup(
        entries,
        key,
    ) == Some(entries[i].1) by {
        lemma_lookup_entry(entries, i);
    }
}

/// The map that a list without repeated keys stands for has the keys of the
/// entries and no others, and under each the value of its entry.
pub proof fn law_as_map<V>(entries: Seq<(Seq<char>, V)>)
    requires
        forall|i: int, j: int|
            0 <= i < j < entries.len() ==> (#[trigger] entries[i]).0 != (#[trigger] entries[j]).0,
    ensures
        forall|i: int|
            0 <= i < entries.len() ==> as_map(entries).contains_key((#[trigger] entries[i]).0)
                && as_map(entries)[entries[i].0] == entries[i].1,
        forall|key: Seq<char>| #[trigger]
            as_map(entries).contains_key(key) ==> exists|i: int|
                0 <= i < entries.len() && (#[trigger] entries[i]).0 == key,
{
    assert forall|i: int| 0 <= i < entries.len() implies as_map(entries).contains_key(
        (#[trigger] entries[i]).0,
    ) && as_map(entries)[entries[i].0] == entries[i].1 by {
        lemma_lookup_entry(entries, i);
    }
}

/// Giving a key a value changes the value of the entry with that key and no
/// other entry, or puts an entry at the end where no entry has the key.
pub proof fn law_with_entry<V>(entries: Seq<(Seq<char>, V)>, key: Seq<char>, value: V)
    requires
        forall|i: int, j: int|
            0 <= i < j < entries.len() ==> (#[trigger] entries[i]).0 != (#[trigger] entries[j]).0,
    ensures
        (forall|i: int| 0 <= i < entries.len() ==> (#[trigger] entries[i]).0 != key) ==> with_entry(
            entries,
            key,
            value,
        ) == entries.push((key, value)),
        forall|i: int|
            0 <= i < entries.len() && (#[trigger] entries[i]).0 == key ==> with_entry(
                entries,
                key,
                value,
            ) == entries.update(i, (key, value)),
{
    assert forall|i: int|
        0 <= i < entries.len() && (#[trigger] entries[i]).0 == key implies with_entry(
        entries,
        key,
        value,
    ) == entries.update(i, (key, value)) by {
        lemma_lookup_entry(entries, i);
    }
}

} // verus!
