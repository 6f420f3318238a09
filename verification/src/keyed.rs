//! Association lists with unique keys, and their map abstraction.
//!
//! Both in-memory tables of this crate (the paste table and the limiter's
//! bucket table) are vectors of records, each record carrying its own key.
//! This module gives the shared abstraction: the map that such a sequence
//! denotes, and the lemmas that connect the sequence operations (push, update,
//! remove) to map operations (insert, remove).

use vstd::prelude::*;

verus! {

/// A record filed in an association list under a key drawn from its own fields.
pub trait Keyed {
    /// The type of the key.
    type K;

    /// The key under which this record is filed.
    spec fn key(&self) -> Self::K;
}

/// No two records of the sequence carry the same key.
pub open spec fn unique_keys<T: Keyed>(s: Seq<T>) -> bool {
    forall|i: int, j: int| 0 <= i < j < s.len() ==> s[i].key() != s[j].key()
}

/// The map denoted by the sequence; on a duplicate key the later record wins,
/// so under `unique_keys` each record is filed under its own key.
pub open spec fn key_map<T: Keyed>(s: Seq<T>) -> Map<T::K, T>
    decreases s.len(),
{
    if s.len() == 0 {
        Map::empty()
    } else {
        key_map(s.drop_last()).insert(s.last().key(), s.last())
    }
}

/// A key is in the map's domain exactly when some record carries it.
pub proof fn lemma_key_map_domain<T: Keyed>(s: Seq<T>, k: T::K)
    ensures
        key_map(s).contains_key(k) <==> exists|i: int| 0 <= i < s.len() && s[i].key() == k,
    decreases s.len(),
{
    if s.len() > 0 {
        lemma_key_map_domain(s.drop_last(), k);
        if exists|i: int| 0 <= i < s.drop_last().len() && s.drop_last()[i].key() == k {
            let i = choose|i: int| 0 <= i < s.drop_last().len() && s.drop_last()[i].key() == k;
            assert(s[i].key() == k);
        }
        if s.last().key() == k {
            assert(s[s.len() - 1].key() == k);
        }
        if exists|i: int| 0 <= i < s.len() && s[i].key() == k {
            let i = choose|i: int| 0 <= i < s.len() && s[i].key() == k;
            if i < s.len() - 1 {
                assert(s.drop_last()[i].key() == k);
            }
        }
    }
}

/// Under unique keys, the record at index `i` is what the map files under its key.
pub proof fn lemma_key_map_index<T: Keyed>(s: Seq<T>, i: int)
    requires
        unique_keys(s),
        0 <= i < s.len(),
    ensures
        key_map(s).contains_key(s[i].key()),
        key_map(s)[s[i].key()] == s[i],
    decreases s.len(),
{
    if i < s.len() - 1 {
        assert(unique_keys(s.drop_last())) by {
            assert(forall|a: int, b: int|
                0 <= a < b < s.drop_last().len() ==> s.drop_last()[a] == s[a]
                    && s.drop_last()[b] == s[b]);
        }
        assert(s.drop_last()[i] == s[i]);
        lemma_key_map_index(s.drop_last(), i);
        assert(s[i].key() != s.last().key());
    }
}

/// Appending a record inserts it into the map under its key.
pub proof fn lemma_key_map_push<T: Keyed>(s: Seq<T>, t: T)
    ensures
        key_map(s.push(t)) == key_map(s).insert(t.key(), t),
        unique_keys(s) && !key_map(s).contains_key(t.key()) ==> unique_keys(s.push(t)),
{
    assert(s.push(t).drop_last() =~= s);
    assert(s.push(t).last() == t);
    if unique_keys(s) && !key_map(s).contains_key(t.key()) {
        lemma_key_map_domain(s, t.key());
        assert(forall|i: int| 0 <= i < s.len() ==> s.push(t)[i] == s[i]);
        assert(s.push(t)[s.len() as int] == t);
    }
}

/// Replacing the record at index `i` by one with the same key re-files that key.
pub proof fn lemma_key_map_update<T: Keyed>(s: Seq<T>, i: int, t: T)
    requires
        unique_keys(s),
        0 <= i < s.len(),
        t.key() == s[i].key(),
    ensures
        key_map(s.update(i, t)) =~= key_map(s).insert(t.key(), t),
        unique_keys(s.update(i, t)),
    decreases s.len(),
{
    let s2 = s.update(i, t);
    assert(unique_keys(s2)) by {
        assert(forall|a: int| 0 <= a < s.len() && a != i ==> s2[a] == s[a]);
        assert(s2[i].key() == s[i].key());
    }
    if i == s.len() - 1 {
        assert(s2.drop_last() =~= s.drop_last());
        assert(s2.last() == t);
    } else {
        assert(unique_keys(s.drop_last())) by {
            assert(forall|a: int, b: int|
                0 <= a < b < s.drop_last().len() ==> s.drop_last()[a] == s[a]
                    && s.drop_last()[b] == s[b]);
        }
        assert(s.drop_last()[i] == s[i]);
        lemma_key_map_update(s.drop_last(), i, t);
        assert(s2.drop_last() =~= s.drop_last().update(i, t));
        assert(s2.last() == s.last());
        assert(t.key() != s.last().key());
    }
}

/// Removing the record at index `i` removes its key from the map.
pub proof fn lemma_key_map_remove<T: Keyed>(s: Seq<T>, i: int)
    requires
        unique_keys(s),
        0 <= i < s.len(),
    ensures
        key_map(s.remove(i)) =~= key_map(s).remove(s[i].key()),
        unique_keys(s.remove(i)),
    decreases s.len(),
{
    let s2 = s.remove(i);
    assert(unique_keys(s2)) by {
        assert(forall|a: int| 0 <= a < s2.len() ==> s2[a] == if a < i {
            s[a]
        } else {
            s[a + 1]
        });
    }
    assert(unique_keys(s.drop_last())) by {
        assert(forall|a: int, b: int|
            0 <= a < b < s.drop_last().len() ==> s.drop_last()[a] == s[a] && s.drop_last()[b]
                == s[b]);
    }
    if i == s.len() - 1 {
        assert(s2 =~= s.drop_last());
        lemma_key_map_domain(s.drop_last(), s[i].key());
        assert(forall|a: int| 0 <= a < s.drop_last().len() ==> s.drop_last()[a] == s[a]);
    } else {
        assert(s2.drop_last() =~= s.drop_last().remove(i));
        assert(s2.last() == s.last());
        assert(s.drop_last()[i] == s[i]);
        lemma_key_map_remove(s.drop_last(), i);
        assert(s[i].key() != s.last().key());
    }
}

} // verus!
