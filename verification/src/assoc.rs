//! Association lists: a sequence of key and value pairs in which no key
//! occurs twice, read as a map.

use vstd::prelude::*;

verus! {

/// No key occurs at two places.
pub open spec fn keys_distinct<K, V>(entries: Seq<(K, V)>) -> bool {
    forall|i: int, j: int|
        0 <= i < j < entries.len() ==> (#[trigger] entries[i]).0 != (#[trigger] entries[j]).0
}

/// Some pair has the key.
pub open spec fn has_key<K, V>(entries: Seq<(K, V)>, key: K) -> bool {
    exists|i: int| 0 <= i < entries.len() && (#[trigger] entries[i]).0 == key
}

/// A place at which the key stands, where there is one.
pub open spec fn index_of<K, V>(entries: Seq<(K, V)>, key: K) -> int {
    choose|i: int| 0 <= i < entries.len() && (#[trigger] entries[i]).0 == key
}

/// The value that stands with the key, where the key occurs.
pub open spec fn value_of<K, V>(entries: Seq<(K, V)>, key: K) -> V {
    entries[index_of(entries, key)].1
}

/// With distinct keys, the pair at place `i` is the one found for its key.
pub proof fn lemma_lookup_at<K, V>(entries: Seq<(K, V)>, i: int)
    requires
        keys_distinct(entries),
        0 <= i < entries.len(),
    ensures
        has_key(entries, entries[i].0),
        index_of(entries, entries[i].0) == i,
        value_of(entries, entries[i].0) == entries[i].1,
{
    let key = entries[i].0;
    let j = index_of(entries, key);
    assert(0 <= j < entries.len() && entries[j].0 == key);
    if j < i {
        assert(entries[j].0 != entries[i].0);
    } else if i < j {
        assert(entries[i].0 != entries[j].0);
    }
}

/// A key that stands nowhere is not found.
pub proof fn lemma_absent<K, V>(entries: Seq<(K, V)>, key: K)
    requires
        forall|i: int| 0 <= i < entries.len() ==> (#[trigger] entries[i]).0 != key,
    ensures
        !has_key(entries, key),
{
}

/// Appending a pair with a new key keeps the keys distinct, adds that key
/// with its value, and leaves every other key as it was.
pub proof fn lemma_push<K, V>(entries: Seq<(K, V)>, key: K, value: V)
    requires
        keys_distinct(entries),
        !has_key(entries, key),
    ensures
        keys_distinct(entries.push((key, value))),
        has_key(entries.push((key, value)), key),
        value_of(entries.push((key, value)), key) == value,
        forall|other: K|
            other != key ==> (has_key(entries.push((key, value)), other) <==> has_key(
                entries,
                other,
            )),
        forall|other: K|
            other != key && has_key(entries, other) ==> value_of(
                entries.push((key, value)),
                other,
            ) == value_of(entries, other),
{
    let after = entries.push((key, value));
    assert forall|i: int, j: int| 0 <= i < j < after.len() implies (#[trigger] after[i]).0 != (
    #[trigger] after[j]).0 by {
        if j == entries.len() {
            assert(entries[i].0 != key);
        } else {
            assert(entries[i].0 != entries[j].0);
        }
    }
    assert(after[entries.len() as int].0 == key);
    lemma_lookup_at(after, entries.len() as int);
    assert forall|other: K| other != key implies (has_key(after, other) <==> has_key(
        entries,
        other,
    )) by {
        if has_key(entries, other) {
            let i = index_of(entries, other);
            assert(after[i].0 == other);
        }
        if has_key(after, other) {
            let i = index_of(after, other);
            assert(entries[i].0 == other);
        }
    }
    assert forall|other: K| other != key && has_key(entries, other) implies value_of(after, other)
        == value_of(entries, other) by {
        let i = index_of(entries, other);
        assert(after[i] == entries[i]);
        lemma_lookup_at(after, i);
    }
}

/// Replacing the value at place `i` keeps the keys, gives that key the new
/// value, and leaves every other key as it was.
pub proof fn lemma_update<K, V>(entries: Seq<(K, V)>, i: int, value: V)
    requires
        keys_distinct(entries),
        0 <= i < entries.len(),
    ensures
        keys_distinct(entries.update(i, (entries[i].0, value))),
        forall|other: K|
            has_key(entries.update(i, (entries[i].0, value)), other) <==> has_key(entries, other),
        value_of(entries.update(i, (entries[i].0, value)), entries[i].0) == value,
        forall|other: K|
            other != entries[i].0 && has_key(entries, other) ==> value_of(
                entries.update(i, (entries[i].0, value)),
                other,
            ) == value_of(entries, other),
{
    let key = entries[i].0;
    let after = entries.update(i, (key, value));
    assert forall|a: int, b: int| 0 <= a < b < after.len() implies (#[trigger] after[a]).0 != (
    #[trigger] after[b]).0 by {
        assert(entries[a].0 != entries[b].0);
    }
    assert forall|other: K| has_key(after, other) <==> has_key(entries, other) by {
        if has_key(entries, other) {
            let j = index_of(entries, other);
            assert(after[j].0 == other);
        }
        if has_key(after, other) {
            let j = index_of(after, other);
            assert(entries[j].0 == other);
        }
    }
    lemma_lookup_at(after, i);
    assert forall|other: K| other != key && has_key(entries, other) implies value_of(after, other)
        == value_of(entries, other) by {
        let j = index_of(entries, other);
        assert(after[j] == entries[j]);
        lemma_lookup_at(after, j);
    }
}

} // verus!
