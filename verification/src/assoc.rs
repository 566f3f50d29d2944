//! Ordered lists of named values in which a name does not come twice: the
//! members of a JSON object, the parameters of a query string.

use vstd::prelude::*;

verus! {

/// The index of the member of `entries` with key `key`, or -1 where there is none.
pub open spec fn key_index<V>(entries: Seq<(Seq<char>, V)>, key: Seq<char>) -> int
    decreases entries.len(),
{
    if entries.len() == 0 {
        -1
    } else if key_index(entries.drop_last(), key) >= 0 {
        key_index(entries.drop_last(), key)
    } else if entries.last().0 == key {
        entries.len() - 1
    } else {
        -1
    }
}

/// `entries` after `key` has been given the value `value`: a key that is
/// present keeps its place and gets the new value, a new key goes last.
pub open spec fn assoc_insert<V>(entries: Seq<(Seq<char>, V)>, key: Seq<char>, value: V) -> Seq<
    (Seq<char>, V),
> {
    if key_index(entries, key) >= 0 {
        entries.update(key_index(entries, key), (key, value))
    } else {
        entries.push((key, value))
    }
}

/// What comes of inserting `pairs` one after the other into an empty list.
pub open spec fn assoc_collect<V>(pairs: Seq<(Seq<char>, V)>) -> Seq<(Seq<char>, V)>
    decreases pairs.len(),
{
    if pairs.len() == 0 {
        Seq::empty()
    } else {
        assoc_insert(assoc_collect(pairs.drop_last()), pairs.last().0, pairs.last().1)
    }
}

/// No key occurs twice in `entries`.
pub open spec fn distinct_keys<V>(entries: Seq<(Seq<char>, V)>) -> bool {
    forall|i: int, j: int|
        0 <= i < j < entries.len() ==> (#[trigger] entries[i]).0 != (#[trigger] entries[j]).0
}

/// The mapping that `pairs` describe when a later pair overrides an earlier
/// one with the same key.
pub open spec fn last_wins<V>(pairs: Seq<(Seq<char>, V)>) -> Map<Seq<char>, V>
    decreases pairs.len(),
{
    if pairs.len() == 0 {
        Map::empty()
    } else {
        last_wins(pairs.drop_last()).insert(pairs.last().0, pairs.last().1)
    }
}

/// The mapping that a list without repeated keys describes.
pub open spec fn as_map<V>(entries: Seq<(Seq<char>, V)>) -> Map<Seq<char>, V> {
    Map::new(
        |k: Seq<char>| key_index(entries, k) >= 0,
        |k: Seq<char>| entries[key_index(entries, k)].1,
    )
}

/// The facts that pin `key_index` down: it is the first place where the key stands.
pub proof fn lemma_key_index<V>(entries: Seq<(Seq<char>, V)>, key: Seq<char>)
    ensures
        -1 <= key_index(entries, key) < entries.len(),
        key_index(entries, key) >= 0 ==> entries[key_index(entries, key)].0 == key,
        forall|i: int| 0 <= i < key_index(entries, key) ==> (#[trigger] entries[i]).0 != key,
        key_index(entries, key) == -1 ==> forall|i: int|
            0 <= i < entries.len() ==> (#[trigger] entries[i]).0 != key,
    decreases entries.len(),
{
    if entries.len() > 0 {
        let init = entries.drop_last();
        lemma_key_index(init, key);
        assert forall|i: int| 0 <= i < init.len() implies init[i] == entries[i] by {}
        if key_index(init, key) >= 0 {
            assert(entries[key_index(init, key)] == init[key_index(init, key)]);
            assert forall|i: int| 0 <= i < key_index(entries, key) implies (#[trigger] entries[i]).0
                != key by {
                assert(init[i] == entries[i]);
            }
        } else {
            assert forall|i: int| 0 <= i < init.len() implies (#[trigger] entries[i]).0 != key by {
                assert(init[i] == entries[i]);
            }
        }
    }
}

/// A key with no equal before it has its index there.
pub proof fn lemma_key_index_is<V>(entries: Seq<(Seq<char>, V)>, key: Seq<char>, k: int)
    requires
        0 <= k < entries.len(),
        entries[k].0 == key,
        forall|i: int| 0 <= i < k ==> (#[trigger] entries[i]).0 != key,
    ensures
        key_index(entries, key) == k,
{
    lemma_key_index(entries, key);
    let r = key_index(entries, key);
    if r < k {
        if r >= 0 {
            assert(entries[r].0 != key);
        } else {
            assert(entries[k].0 != key);
        }
    }
    if r > k {
        assert(entries[k].0 != key);
    }
}

/// A key that stands nowhere has no index.
pub proof fn lemma_key_index_none<V>(entries: Seq<(Seq<char>, V)>, key: Seq<char>)
    requires
        forall|i: int| 0 <= i < entries.len() ==> (#[trigger] entries[i]).0 != key,
    ensures
        key_index(entries, key) == -1,
{
    lemma_key_index(entries, key);
    let r = key_index(entries, key);
    if r >= 0 {
        assert(entries[r].0 != key);
    }
}

/// Inserting keeps keys distinct, gives the key its new value and leaves every
/// other key with the value it had.
pub proof fn lemma_assoc_insert<V>(entries: Seq<(Seq<char>, V)>, key: Seq<char>, value: V)
    requires
        distinct_keys(entries),
    ensures
        distinct_keys(assoc_insert(entries, key, value)),
        as_map(assoc_insert(entries, key, value)) == as_map(entries).insert(key, value),
{
    let after = assoc_insert(entries, key, value);
    lemma_key_index(entries, key);
    assert forall|k: Seq<char>| #[trigger]
        key_index(after, k) == (if k == key && key_index(entries, key) < 0 {
            entries.len() as int
        } else {
            key_index(entries, k)
        }) by {
        lemma_key_index(entries, k);
        lemma_key_index(after, k);
        let i = key_index(entries, k);
        let j = key_index(after, k);
        if i >= 0 {
            assert(after[i].0 == k);
            if j < 0 {
                assert(after[i].0 != k);
            }
            if j >= 0 && j < i {
                assert(entries[j].0 != k);
            }
            if j > i {
                assert(after[i].0 != k);
            }
        } else {
            if j >= 0 && j < entries.len() {
                assert(entries[j].0 != k);
            }
            if k == key && j < 0 {
                assert(after[entries.len() as int].0 != k);
            }
        }
    }
    assert(as_map(after) =~= as_map(entries).insert(key, value)) by {
        assert forall|k: Seq<char>| as_map(after).dom().contains(k) == as_map(entries).insert(
            key,
            value,
        ).dom().contains(k) by {
            let _ = key_index(after, k);
        }
        assert forall|k: Seq<char>| as_map(after).dom().contains(k) implies as_map(after)[k]
            == as_map(entries).insert(key, value)[k] by {
            let j = key_index(after, k);
            lemma_key_index(entries, k);
            if k != key {
                assert(entries[j].0 == k);
                assert(after[j] == entries[j]);
            }
        }
    }
}

/// Pairs whose keys differ are collected as they stand, in their order.
pub proof fn lemma_collect_distinct<V>(pairs: Seq<(Seq<char>, V)>)
    requires
        distinct_keys(pairs),
    ensures
        assoc_collect(pairs) == pairs,
    decreases pairs.len(),
{
    if pairs.len() > 0 {
        let init = pairs.drop_last();
        assert(distinct_keys(init)) by {
            assert forall|i: int, j: int| 0 <= i < j < init.len() implies (#[trigger] init[i]).0 != (
            #[trigger] init[j]).0 by {
                assert(init[i] == pairs[i] && init[j] == pairs[j]);
            }
        }
        lemma_collect_distinct(init);
        assert forall|i: int| 0 <= i < init.len() implies (#[trigger] init[i]).0 != pairs.last().0 by {
            assert(init[i] == pairs[i]);
            assert(pairs[pairs.len() - 1] == pairs.last());
        }
        lemma_key_index_none(init, pairs.last().0);
        assert(init.push((pairs.last().0, pairs.last().1)) =~= pairs);
    }
}

/// Collecting pairs gives a list without repeated keys, and that list
/// describes the mapping in which the last pair for a key wins.
pub proof fn lemma_collect_last_wins<V>(pairs: Seq<(Seq<char>, V)>)
    ensures
        distinct_keys(assoc_collect(pairs)),
        as_map(assoc_collect(pairs)) == last_wins(pairs),
    decreases pairs.len(),
{
    if pairs.len() == 0 {
        assert(as_map(assoc_collect(pairs)) =~= Map::<Seq<char>, V>::empty());
    } else {
        lemma_collect_last_wins(pairs.drop_last());
        lemma_assoc_insert(assoc_collect(pairs.drop_last()), pairs.last().0, pairs.last().1);
    }
}

} // verus!
