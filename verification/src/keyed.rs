//! Sequences of keyed entries, read as maps.
//!
//! The ledger keeps its records in vectors, one entry per key. These
//! definitions say which map such a sequence stands for, and relate the
//! operations on the sequence to those on the map.

use vstd::prelude::*;

verus! {

/// The map that a sequence of `(key, value)` entries stands for. Where a key
/// occurs more than once, its last entry counts.
pub open spec fn entries_map<K, V>(entries: Seq<(K, V)>) -> Map<K, V>
    decreases entries.len(),
{
    if entries.len() == 0 {
        Map::empty()
    } else {
        entries_map(entries.drop_last()).insert(entries.last().0, entries.last().1)
    }
}

/// No key occurs in two entries.
pub open spec fn distinct_keys<K, V>(entries: Seq<(K, V)>) -> bool {
    forall|i: int, j: int| 0 <= i < j < entries.len() ==> entries[i].0 != entries[j].0
}

/// Some entry has the key `key`.
pub open spec fn has_key<K, V>(entries: Seq<(K, V)>, key: K) -> bool {
    exists|i: int| 0 <= i < entries.len() && entries[i].0 == key
}

/// The keys of the map are the keys of the entries, and they are finitely many.
pub proof fn lemma_entries_map_domain<K, V>(entries: Seq<(K, V)>, key: K)
    ensures
        entries_map(entries).contains_key(key) <==> has_key(entries, key),
        entries_map(entries).dom().finite(),
    decreases entries.len(),
{
    if entries.len() > 0 {
        let front = entries.drop_last();
        lemma_entries_map_domain(front, key);
        if has_key(front, key) {
            let i = choose|i: int| 0 <= i < front.len() && front[i].0 == key;
            assert(entries[i].0 == key);
        }
        if has_key(entries, key) {
            let i = choose|i: int| 0 <= i < entries.len() && entries[i].0 == key;
            if i < front.len() {
                assert(front[i].0 == key);
            }
        }
    }
}

/// With distinct keys, the map sends the key of each entry to the value of that entry.
pub proof fn lemma_entries_map_index<K, V>(entries: Seq<(K, V)>, i: int)
    requires
        distinct_keys(entries),
        0 <= i < entries.len(),
    ensures
        entries_map(entries).contains_key(entries[i].0),
        entries_map(entries)[entries[i].0] == entries[i].1,
    decreases entries.len(),
{
    let front = entries.drop_last();
    if i < front.len() {
        lemma_entries_map_index(front, i);
    }
}

/// With distinct keys, the map has as many keys as there are entries.
pub proof fn lemma_entries_map_len<K, V>(entries: Seq<(K, V)>)
    requires
        distinct_keys(entries),
    ensures
        entries_map(entries).dom().finite(),
        entries_map(entries).dom().len() == entries.len(),
    decreases entries.len(),
{
    if entries.len() > 0 {
        let front = entries.drop_last();
        lemma_entries_map_len(front);
        lemma_entries_map_domain(front, entries.last().0);
        if has_key(front, entries.last().0) {
            let i = choose|i: int| 0 <= i < front.len() && front[i].0 == entries.last().0;
            assert(entries[i].0 == entries[entries.len() - 1].0);
        }
    }
}

/// Appending an entry inserts it into the map.
pub proof fn lemma_entries_map_push<K, V>(entries: Seq<(K, V)>, key: K, value: V)
    ensures
        entries_map(entries.push((key, value))) == entries_map(entries).insert(key, value),
{
    assert(entries.push((key, value)).drop_last() =~= entries);
}

/// With distinct keys, replacing the value of an entry inserts the new value under the entry's key.
pub proof fn lemma_entries_map_update<K, V>(entries: Seq<(K, V)>, i: int, value: V)
    requires
        distinct_keys(entries),
        0 <= i < entries.len(),
    ensures
        entries_map(entries.update(i, (entries[i].0, value))) == entries_map(entries).insert(
            entries[i].0,
            value,
        ),
        distinct_keys(entries.update(i, (entries[i].0, value))),
    decreases entries.len(),
{
    let updated = entries.update(i, (entries[i].0, value));
    let front = entries.drop_last();
    if i == entries.len() - 1 {
        assert(updated.drop_last() =~= front);
        assert(entries_map(updated) =~= entries_map(entries).insert(entries[i].0, value));
    } else {
        lemma_entries_map_update(front, i, value);
        assert(updated.drop_last() =~= front.update(i, (entries[i].0, value)));
        assert(entries_map(updated) =~= entries_map(entries).insert(entries[i].0, value));
    }
}

} // verus!
