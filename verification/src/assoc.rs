//! Association sequences viewed as maps.
//!
//! Both stores hold their entries as a sequence of key/value pairs with
//! distinct keys and are specified through the map those pairs denote. The
//! lemmas here relate membership, lookup, extension, and removal on the
//! sequence to the same operations on the map.

use vstd::prelude::*;

verus! {

/// No two entries of the sequence share a key.
pub open spec fn unique_keys<V>(s: Seq<(Seq<char>, V)>) -> bool {
    forall|i: int, j: int| 0 <= i < j < s.len() ==> (#[trigger] s[i]).0 != (#[trigger] s[j]).0
}

/// The map an association sequence denotes; on a duplicate key the later
/// entry wins, though the stores never hold one.
pub open spec fn assoc_map<V>(s: Seq<(Seq<char>, V)>) -> Map<Seq<char>, V>
    decreases s.len(),
{
    if s.len() == 0 {
        Map::empty()
    } else {
        assoc_map(s.drop_last()).insert(s.last().0, s.last().1)
    }
}

/// A key is in the map exactly when some entry carries it.
pub proof fn lemma_assoc_contains<V>(s: Seq<(Seq<char>, V)>, k: Seq<char>)
    ensures
        assoc_map(s).contains_key(k) <==> (exists|j: int| 0 <= j < s.len() && (#[trigger] s[j]).0 == k),
    decreases s.len(),
{
    if s.len() > 0 {
        lemma_assoc_contains(s.drop_last(), k);
        if s.last().0 == k {
            assert(s[s.len() - 1].0 == k);
        } else if assoc_map(s).contains_key(k) {
            let j = choose|j: int| 0 <= j < s.drop_last().len() && (#[trigger] s.drop_last()[j]).0 == k;
            assert(s[j].0 == k);
        } else {
            assert forall|j: int| 0 <= j < s.len() implies (#[trigger] s[j]).0 != k by {
                if j < s.len() - 1 {
                    assert(s.drop_last()[j] == s[j]);
                }
            }
        }
    }
}

/// Under distinct keys, the map's value at an entry's key is that entry's
/// value.
pub proof fn lemma_assoc_value<V>(s: Seq<(Seq<char>, V)>, j: int)
    requires
        unique_keys(s),
        0 <= j < s.len(),
    ensures
        assoc_map(s).contains_key(s[j].0),
        assoc_map(s)[s[j].0] == s[j].1,
    decreases s.len(),
{
    lemma_assoc_contains(s, s[j].0);
    if j < s.len() - 1 {
        assert(s.drop_last()[j] == s[j]);
        assert(unique_keys(s.drop_last())) by {
            assert forall|a: int, b: int|
                0 <= a < b < s.drop_last().len() implies (#[trigger] s.drop_last()[a]).0 != (
            #[trigger] s.drop_last()[b]).0 by {
                assert(s.drop_last()[a] == s[a]);
                assert(s.drop_last()[b] == s[b]);
            }
        }
        lemma_assoc_value(s.drop_last(), j);
        assert(s[j].0 != s.last().0);
    }
}

/// Appending an entry is inserting its pair into the map.
pub proof fn lemma_assoc_push<V>(s: Seq<(Seq<char>, V)>, k: Seq<char>, v: V)
    ensures
        assoc_map(s.push((k, v))) == assoc_map(s).insert(k, v),
{
    assert(s.push((k, v)).drop_last() =~= s);
    assert(s.push((k, v)).last() == (k, v));
}

/// Distinct keys survive the removal of an entry.
pub proof fn lemma_unique_remove<V>(s: Seq<(Seq<char>, V)>, j: int)
    requires
        unique_keys(s),
        0 <= j < s.len(),
    ensures
        unique_keys(s.remove(j)),
{
    assert forall|a: int, b: int|
        0 <= a < b < s.remove(j).len() implies (#[trigger] s.remove(j)[a]).0 != (
    #[trigger] s.remove(j)[b]).0 by {
        let a0: int = if a < j { a } else { a + 1 };
        let b0: int = if b < j { b } else { b + 1 };
        assert(s.remove(j)[a] == s[a0]);
        assert(s.remove(j)[b] == s[b0]);
    }
}

/// Under distinct keys, removing an entry is removing its key from the map.
pub proof fn lemma_assoc_remove<V>(s: Seq<(Seq<char>, V)>, j: int)
    requires
        unique_keys(s),
        0 <= j < s.len(),
    ensures
        assoc_map(s.remove(j)) =~= assoc_map(s).remove(s[j].0),
    decreases s.len(),
{
    let k = s[j].0;
    lemma_assoc_contains(s.drop_last(), k);
    if j == s.len() - 1 {
        assert(s.remove(j) =~= s.drop_last());
        assert forall|a: int| 0 <= a < s.drop_last().len() implies (#[trigger] s.drop_last()[a]).0 != k by {
            assert(s.drop_last()[a] == s[a]);
        }
        assert(!assoc_map(s.drop_last()).contains_key(k));
        assert(assoc_map(s.drop_last()).insert(k, s.last().1).remove(k) =~= assoc_map(s.drop_last()));
    } else {
        assert(unique_keys(s.drop_last())) by {
            assert forall|a: int, b: int|
                0 <= a < b < s.drop_last().len() implies (#[trigger] s.drop_last()[a]).0 != (
            #[trigger] s.drop_last()[b]).0 by {
                assert(s.drop_last()[a] == s[a]);
                assert(s.drop_last()[b] == s[b]);
            }
        }
        assert(s.drop_last()[j] == s[j]);
        lemma_assoc_remove(s.drop_last(), j);
        assert(s.remove(j).drop_last() =~= s.drop_last().remove(j));
        assert(s.remove(j).last() == s.last());
        assert(s.last().0 != k);
        assert(assoc_map(s.remove(j)) == assoc_map(s.drop_last().remove(j)).insert(
            s.last().0,
            s.last().1,
        ));
        assert(assoc_map(s.drop_last()).remove(k).insert(s.last().0, s.last().1)
            =~= assoc_map(s.drop_last()).insert(s.last().0, s.last().1).remove(k));
    }
}

} // verus!
