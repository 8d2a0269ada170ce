//! A keyed store modelled as a sequence of (key, value) entries with
//! pairwise-distinct keys. The spec-level `lookup` function is the common
//! ground between the executable linear searches and the `Map` views the
//! contracts speak of.

use vstd::prelude::*;

verus! {

/// No key occurs twice among the entries.
pub open spec fn keys_unique<V>(s: Seq<(u64, V)>) -> bool {
    forall|i: int, j: int| 0 <= i < j < s.len() ==> (#[trigger] s[i]).0 != (#[trigger] s[j]).0
}

/// The value stored under `k`, if any.
pub open spec fn lookup<V>(s: Seq<(u64, V)>, k: u64) -> Option<V>
    decreases s.len(),
{
    if s.len() == 0 {
        None
    } else if s.last().0 == k {
        Some(s.last().1)
    } else {
        lookup(s.drop_last(), k)
    }
}

/// The store as a map from keys to values.
pub open spec fn map_of<V>(s: Seq<(u64, V)>) -> Map<u64, V> {
    Map::new(|k: u64| lookup(s, k) is Some, |k: u64| lookup(s, k)->Some_0)
}

/// An entry at index `i` is what `lookup` finds under its key, provided keys
/// are unique.
pub proof fn lemma_lookup_at<V>(s: Seq<(u64, V)>, i: int)
    requires
        keys_unique(s),
        0 <= i < s.len(),
    ensures
        lookup(s, s[i].0) == Some(s[i].1),
    decreases s.len(),
{
    if i == s.len() - 1 {
    } else {
        assert(s.last().0 != s[i].0);
        assert(s.drop_last()[i] == s[i]);
        lemma_lookup_at(s.drop_last(), i);
    }
}

/// What `lookup` finds is stored at some position.
pub proof fn lemma_lookup_index<V>(s: Seq<(u64, V)>, k: u64)
    requires
        lookup(s, k) is Some,
    ensures
        exists|i: int| 0 <= i < s.len() && #[trigger] s[i] == (k, lookup(s, k)->Some_0),
    decreases s.len(),
{
    if s.last().0 == k {
        assert(s[s.len() - 1] == (k, lookup(s, k)->Some_0));
    } else {
        lemma_lookup_index(s.drop_last(), k);
        let i = choose|i: int|
            0 <= i < s.drop_last().len() && #[trigger] s.drop_last()[i] == (
                k,
                lookup(s.drop_last(), k)->Some_0,
            );
        assert(s[i] == (k, lookup(s, k)->Some_0));
    }
}

/// A key under which no entry is stored is not found.
pub proof fn lemma_lookup_absent<V>(s: Seq<(u64, V)>, k: u64)
    requires
        forall|j: int| 0 <= j < s.len() ==> (#[trigger] s[j]).0 != k,
    ensures
        lookup(s, k) is None,
    decreases s.len(),
{
    if s.len() > 0 {
        lemma_lookup_absent(s.drop_last(), k);
    }
}

/// Appending an entry with a fresh key stores its value under its key and
/// leaves every other key unchanged.
pub proof fn lemma_lookup_push<V>(s: Seq<(u64, V)>, e: (u64, V))
    ensures
        lookup(s.push(e), e.0) == Some(e.1),
        forall|b: u64| b != e.0 ==> lookup(s.push(e), b) == lookup(s, b),
{
    assert(s.push(e).drop_last() =~= s);
}

/// Replacing the entry at `i` by one with the same key changes only that key.
pub proof fn lemma_lookup_update<V>(s: Seq<(u64, V)>, i: int, e: (u64, V))
    requires
        keys_unique(s),
        0 <= i < s.len(),
        e.0 == s[i].0,
    ensures
        keys_unique(s.update(i, e)),
        lookup(s.update(i, e), e.0) == Some(e.1),
        forall|b: u64| b != e.0 ==> lookup(s.update(i, e), b) == lookup(s, b),
    decreases s.len(),
{
    let t = s.update(i, e);
    if i == s.len() - 1 {
        assert(t.drop_last() =~= s.drop_last());
        assert forall|b: u64| b != e.0 implies lookup(t, b) == lookup(s, b) by {
            assert(t.last() == e);
            assert(s.last().0 == e.0);
        }
    } else {
        assert(t.drop_last() =~= s.drop_last().update(i, e));
        assert(s.drop_last()[i] == s[i]);
        lemma_lookup_update(s.drop_last(), i, e);
        assert(s.last().0 != s[i].0);
        assert(t.last() == s.last());
        assert(lookup(t, e.0) == Some(e.1));
        assert forall|b: u64| b != e.0 implies lookup(t, b) == lookup(s, b) by {
            if s.last().0 != b {
                assert(lookup(t, b) == lookup(t.drop_last(), b));
                assert(lookup(s, b) == lookup(s.drop_last(), b));
            }
        }
    }
}

/// Removing the entry at `i` drops its key and leaves every other key
/// unchanged.
pub proof fn lemma_lookup_remove<V>(s: Seq<(u64, V)>, i: int)
    requires
        keys_unique(s),
        0 <= i < s.len(),
    ensures
        keys_unique(s.remove(i)),
        lookup(s.remove(i), s[i].0) is None,
        forall|b: u64| b != s[i].0 ==> lookup(s.remove(i), b) == lookup(s, b),
    decreases s.len(),
{
    let t = s.remove(i);
    assert forall|p: int, q: int| 0 <= p < q < t.len() implies (#[trigger] t[p]).0 != (#[trigger] t[q]).0 by {
        assert(t[p] == if p < i { s[p] } else { s[p + 1] });
        assert(t[q] == if q < i { s[q] } else { s[q + 1] });
    }
    if i == s.len() - 1 {
        assert(t =~= s.drop_last());
        lemma_lookup_absent(t, s[i].0);
        assert forall|b: u64| b != s[i].0 implies lookup(t, b) == lookup(s, b) by {
            assert(s.last().0 == s[i].0);
        }
    } else {
        assert(t.drop_last() =~= s.drop_last().remove(i));
        assert(s.drop_last()[i] == s[i]);
        lemma_lookup_remove(s.drop_last(), i);
        assert(s.last().0 != s[i].0);
        assert(t.last() == s.last());
        assert(lookup(t, s[i].0) is None);
        assert forall|b: u64| b != s[i].0 implies lookup(t, b) == lookup(s, b) by {
            if s.last().0 != b {
                assert(lookup(t, b) == lookup(t.drop_last(), b));
                assert(lookup(s, b) == lookup(s.drop_last(), b));
            }
        }
    }
}

} // verus!
