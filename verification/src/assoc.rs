//! Association lists viewed as maps.
//!
//! A lookup table is stored as a vector of key-value pairs and specified by
//! the map it denotes: a later entry overrides an earlier one with the same
//! key, exactly as repeated inserts into a map would.

use vstd::prelude::*;

verus! {

/// Turn an association list into a map; a later entry overrides an earlier
/// one with the same key.
pub open spec fn assoc_map<K, V>(s: Seq<(K, V)>) -> Map<K, V>
    decreases s.len(),
{
    if s.len() == 0 {
        Map::empty()
    } else {
        assoc_map(s.drop_last()).insert(s.last().0, s.last().1)
    }
}

/// Some entry carries key `k`.
pub open spec fn has_key<K, V>(s: Seq<(K, V)>, k: K) -> bool {
    exists|i: int| 0 <= i < s.len() && (#[trigger] s[i]).0 == k
}

/// Every entry with key `k` replaced by `(k, v)`.
pub open spec fn replace_key<K, V>(s: Seq<(K, V)>, k: K, v: V) -> Seq<(K, V)> {
    s.map_values(
        |e: (K, V)|
            if e.0 == k {
                (k, v)
            } else {
                e
            },
    )
}

/// Every entry with key `k` dropped.
pub open spec fn erase_key<K, V>(s: Seq<(K, V)>, k: K) -> Seq<(K, V)>
    decreases s.len(),
{
    if s.len() == 0 {
        s
    } else if s.last().0 == k {
        erase_key(s.drop_last(), k)
    } else {
        erase_key(s.drop_last(), k).push(s.last())
    }
}

/// The last entry with key `k` decides the map.
pub proof fn lemma_assoc_map_last_match<K, V>(s: Seq<(K, V)>, i: int, k: K)
    requires
        0 <= i < s.len(),
        s[i].0 == k,
        forall|j: int| i < j < s.len() ==> (#[trigger] s[j]).0 != k,
    ensures
        assoc_map(s).contains_key(k),
        assoc_map(s)[k] == s[i].1,
    decreases s.len(),
{
    if i == s.len() - 1 {
    } else {
        assert(s.drop_last()[i] == s[i]);
        lemma_assoc_map_last_match(s.drop_last(), i, k);
    }
}

/// A key that no entry carries is not in the map.
pub proof fn lemma_assoc_map_no_match<K, V>(s: Seq<(K, V)>, k: K)
    requires
        forall|j: int| 0 <= j < s.len() ==> (#[trigger] s[j]).0 != k,
    ensures
        !assoc_map(s).contains_key(k),
    decreases s.len(),
{
    if s.len() > 0 {
        lemma_assoc_map_no_match(s.drop_last(), k);
    }
}

/// Appending an entry inserts it into the map.
pub proof fn lemma_assoc_map_push<K, V>(s: Seq<(K, V)>, k: K, v: V)
    ensures
        assoc_map(s.push((k, v))) == assoc_map(s).insert(k, v),
{
    assert(s.push((k, v)).drop_last() =~= s);
}

/// Replacing the entries of a key updates the map — or leaves it alone when
/// the key has no entry.
pub proof fn lemma_assoc_map_replace<K, V>(s: Seq<(K, V)>, k: K, v: V)
    ensures
        assoc_map(replace_key(s, k, v)) == (if has_key(s, k) {
            assoc_map(s).insert(k, v)
        } else {
            assoc_map(s)
        }),
    decreases s.len(),
{
    if s.len() == 0 {
        assert(replace_key(s, k, v) =~= s);
    } else {
        let tail = s.drop_last();
        let e = s.last();
        assert(replace_key(s, k, v).drop_last() =~= replace_key(tail, k, v));
        lemma_assoc_map_replace(tail, k, v);
        if e.0 == k {
            assert(has_key(s, k));
            if has_key(tail, k) {
                assert(assoc_map(tail).insert(k, v).insert(k, v) =~= assoc_map(tail).insert(
                    k,
                    v,
                ));
            }
            assert(assoc_map(tail).insert(k, e.1).insert(k, v) =~= assoc_map(tail).insert(k, v));
        } else {
            if has_key(tail, k) {
                assert(has_key(s, k)) by {
                    let i = choose|i: int| 0 <= i < tail.len() && (#[trigger] tail[i]).0 == k;
                    assert(s[i].0 == k);
                }
                assert(assoc_map(tail).insert(k, v).insert(e.0, e.1) =~= assoc_map(tail).insert(
                    e.0,
                    e.1,
                ).insert(k, v));
            } else {
                assert(!has_key(s, k)) by {
                    if has_key(s, k) {
                        let i = choose|i: int| 0 <= i < s.len() && (#[trigger] s[i]).0 == k;
                        assert(tail[i].0 == k);
                    }
                }
            }
        }
    }
}

/// Erasing the entries of a key removes it from the map.
pub proof fn lemma_assoc_map_erase<K, V>(s: Seq<(K, V)>, k: K)
    ensures
        assoc_map(erase_key(s, k)) == assoc_map(s).remove(k),
    decreases s.len(),
{
    if s.len() == 0 {
        assert(assoc_map(erase_key(s, k)) =~= assoc_map(s).remove(k));
    } else {
        let tail = s.drop_last();
        let e = s.last();
        lemma_assoc_map_erase(tail, k);
        if e.0 == k {
            assert(assoc_map(tail).insert(k, e.1).remove(k) =~= assoc_map(tail).remove(k));
        } else {
            assert(erase_key(s, k).drop_last() =~= erase_key(tail, k));
            assert(erase_key(s, k).last() == e);
            assert(erase_key(s, k).len() > 0);
            assert(assoc_map(tail).remove(k).insert(e.0, e.1) =~= assoc_map(tail).insert(
                e.0,
                e.1,
            ).remove(k));
        }
    }
}

} // verus!
