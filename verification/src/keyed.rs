//! Sequences of keyed records, read as maps.
//!
//! Both registries store their records in insertion order and promise that no
//! two records share a key. This module gives such a sequence its map reading
//! and the lemmas that connect the sequence operations to map operations.

use vstd::prelude::*;

verus! {

/// A record that a registry stores under an identifying key.
pub trait Keyed {
    /// The type of the key.
    type K;

    /// The key under which the record is stored.
    spec fn key(&self) -> Self::K;
}

/// No two records of `s` share a key.
pub open spec fn distinct_keys<T: Keyed>(s: Seq<T>) -> bool {
    forall|i: int, j: int|
        0 <= i < j < s.len() ==> #[trigger] s[i].key() != #[trigger] s[j].key()
}

/// The contents of `s` read as a map from key to record; where two records
/// share a key, the later one wins.
pub open spec fn map_of<T: Keyed>(s: Seq<T>) -> Map<T::K, T>
    decreases s.len(),
{
    if s.len() == 0 {
        Map::empty()
    } else {
        map_of(s.drop_last()).insert(s.last().key(), s.last())
    }
}

/// The index at which the record with key `k` stands, when there is one.
pub open spec fn key_index<T: Keyed>(s: Seq<T>, k: T::K) -> int {
    choose|i: int| 0 <= i < s.len() && #[trigger] s[i].key() == k
}

/// A key is in the map reading exactly when some record of the sequence has it.
pub proof fn lemma_map_of_contains<T: Keyed>(s: Seq<T>, k: T::K)
    ensures
        map_of(s).contains_key(k) <==> exists|i: int|
            0 <= i < s.len() && #[trigger] s[i].key() == k,
    decreases s.len(),
{
    if s.len() == 0 {
    } else {
        lemma_map_of_contains(s.drop_last(), k);
        if s.last().key() == k {
            assert(s[s.len() - 1].key() == k);
        } else {
            if map_of(s).contains_key(k) {
                let i = choose|i: int|
                    0 <= i < s.drop_last().len() && #[trigger] s.drop_last()[i].key() == k;
                assert(s[i].key() == k);
            }
            if exists|i: int| 0 <= i < s.len() && #[trigger] s[i].key() == k {
                let i = choose|i: int| 0 <= i < s.len() && #[trigger] s[i].key() == k;
                assert(s.drop_last()[i].key() == k);
            }
        }
    }
}

/// With distinct keys, the map reading stores each record under its key.
pub proof fn lemma_map_of_index<T: Keyed>(s: Seq<T>, i: int)
    requires
        distinct_keys(s),
        0 <= i < s.len(),
    ensures
        map_of(s).contains_key(s[i].key()),
        map_of(s)[s[i].key()] == s[i],
    decreases s.len(),
{
    if i < s.len() - 1 {
        assert(distinct_keys(s.drop_last())) by {
            assert(forall|a: int, b: int|
                0 <= a < b < s.drop_last().len() ==> #[trigger] s.drop_last()[a].key()
                    != #[trigger] s.drop_last()[b].key()) by {
                assert(forall|a: int| 0 <= a < s.drop_last().len() ==>
                    #[trigger] s.drop_last()[a] == s[a]);
            }
        }
        lemma_map_of_index(s.drop_last(), i);
        assert(s.drop_last()[i] == s[i]);
        assert(s.last().key() != s[i].key());
    }
}

/// With distinct keys, `key_index` points at the record with key `k`.
pub proof fn lemma_key_index<T: Keyed>(s: Seq<T>, i: int)
    requires
        distinct_keys(s),
        0 <= i < s.len(),
    ensures
        key_index(s, s[i].key()) == i,
{
    assert(s[i].key() == s[i].key());
    let j = key_index(s, s[i].key());
    assert(0 <= j < s.len() && s[j].key() == s[i].key());
    if i < j {
        assert(s[i].key() != s[j].key());
    } else if j < i {
        assert(s[j].key() != s[i].key());
    }
}

/// Replacing the record at `i` by one with the same key is, in the map
/// reading, an insert under that key.
pub proof fn lemma_map_of_update<T: Keyed>(s: Seq<T>, i: int, v: T)
    requires
        distinct_keys(s),
        0 <= i < s.len(),
        v.key() == s[i].key(),
    ensures
        map_of(s.update(i, v)) == map_of(s).insert(v.key(), v),
        distinct_keys(s.update(i, v)),
    decreases s.len(),
{
    let s2 = s.update(i, v);
    assert(distinct_keys(s2)) by {
        assert forall|a: int, b: int| 0 <= a < b < s2.len() implies #[trigger] s2[a].key()
            != #[trigger] s2[b].key() by {
            assert(s2[a].key() == s[a].key());
            assert(s2[b].key() == s[b].key());
        }
    }
    assert(distinct_keys(s.drop_last())) by {
        assert(forall|a: int| 0 <= a < s.drop_last().len() ==>
            #[trigger] s.drop_last()[a] == s[a]);
    }
    if i == s.len() - 1 {
        assert(s2.drop_last() =~= s.drop_last());
        assert(s2.last() == v);
        assert(map_of(s2) =~= map_of(s).insert(v.key(), v));
    } else {
        assert(s2.drop_last() =~= s.drop_last().update(i, v));
        assert(s.drop_last()[i] == s[i]);
        lemma_map_of_update(s.drop_last(), i, v);
        assert(s2.last() == s.last());
        assert(s.last().key() != v.key());
        assert(map_of(s2) =~= map_of(s).insert(v.key(), v));
    }
}

/// Appending a record with a fresh key is, in the map reading, an insert.
pub proof fn lemma_map_of_push<T: Keyed>(s: Seq<T>, v: T)
    requires
        distinct_keys(s),
        forall|i: int| 0 <= i < s.len() ==> #[trigger] s[i].key() != v.key(),
    ensures
        map_of(s.push(v)) == map_of(s).insert(v.key(), v),
        distinct_keys(s.push(v)),
{
    let s2 = s.push(v);
    assert(s2.drop_last() =~= s);
    assert(s2.last() == v);
    assert(distinct_keys(s2)) by {
        assert forall|a: int, b: int| 0 <= a < b < s2.len() implies #[trigger] s2[a].key()
            != #[trigger] s2[b].key() by {
            if b == s2.len() - 1 {
                assert(s2[a] == s[a]);
            } else {
                assert(s2[a] == s[a]);
                assert(s2[b] == s[b]);
            }
        }
    }
}

/// Taking out the record at `i` is, in the map reading, a remove of its key.
pub proof fn lemma_map_of_remove<T: Keyed>(s: Seq<T>, i: int)
    requires
        distinct_keys(s),
        0 <= i < s.len(),
    ensures
        map_of(s.remove(i)) == map_of(s).remove(s[i].key()),
        distinct_keys(s.remove(i)),
    decreases s.len(),
{
    let s2 = s.remove(i);
    assert(distinct_keys(s2)) by {
        assert forall|a: int, b: int| 0 <= a < b < s2.len() implies #[trigger] s2[a].key()
            != #[trigger] s2[b].key() by {
            let a0: int = if a < i { a } else { a + 1 };
            let b0: int = if b < i { b } else { b + 1 };
            assert(s2[a] == s[a0]);
            assert(s2[b] == s[b0]);
        }
    }
    assert(distinct_keys(s.drop_last())) by {
        assert(forall|a: int| 0 <= a < s.drop_last().len() ==>
            #[trigger] s.drop_last()[a] == s[a]);
    }
    if i == s.len() - 1 {
        assert(s2 =~= s.drop_last());
        lemma_map_of_contains(s.drop_last(), s[i].key());
        assert(forall|a: int| 0 <= a < s.drop_last().len() ==>
            #[trigger] s.drop_last()[a].key() != s[i].key());
        assert(map_of(s2) =~= map_of(s).remove(s[i].key()));
    } else {
        assert(s2.drop_last() =~= s.drop_last().remove(i));
        assert(s.drop_last()[i] == s[i]);
        lemma_map_of_remove(s.drop_last(), i);
        assert(s2.last() == s.last());
        assert(s.last().key() != s[i].key());
        assert(map_of(s2) =~= map_of(s).remove(s[i].key()));
    }
}

} // verus!
