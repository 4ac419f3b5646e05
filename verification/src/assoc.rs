//! Association sequences denoted as finite maps.
//!
//! Several types of this crate keep keyed data in a plain sequence of
//! `(key, value)` pairs and state their contracts over the finite map
//! that the sequence denotes.  An earlier entry shadows a later entry
//! with the same key, matching a scan that stops at the first hit; the
//! sequences the crate builds keep their keys unique, so the shadowing
//! never becomes observable.

use vstd::prelude::*;

verus! {

/// The finite map denoted by an association sequence; an earlier entry
/// shadows a later one with the same key.
pub open spec fn assoc_map<K, V>(s: Seq<(K, V)>) -> Map<K, V>
    decreases s.len(),
{
    if s.len() == 0 {
        Map::empty()
    } else {
        assoc_map(s.drop_first()).insert(s[0].0, s[0].1)
    }
}

/// No two entries share a key.
pub open spec fn unique_keys<K, V>(s: Seq<(K, V)>) -> bool {
    forall|i: int, j: int| 0 <= i < j < s.len() ==> s[i].0 != s[j].0
}

/// A key is in the denoted map exactly when some entry holds it.
pub proof fn lemma_assoc_dom<K, V>(s: Seq<(K, V)>)
    ensures
        forall|k: K|
            #[trigger] assoc_map(s).dom().contains(k) <==> exists|i: int|
                0 <= i < s.len() && (#[trigger] s[i]).0 == k,
    decreases s.len(),
{
    if s.len() > 0 {
        lemma_assoc_dom(s.drop_first());
        assert forall|k: K| #[trigger] assoc_map(s).dom().contains(k) implies exists|i: int|
            0 <= i < s.len() && (#[trigger] s[i]).0 == k by {
            if k == s[0].0 {
                assert(0 <= 0 < s.len() && s[0].0 == k);
            } else {
                assert(assoc_map(s.drop_first()).dom().contains(k));
                let j = choose|j: int|
                    0 <= j < s.drop_first().len() && (#[trigger] s.drop_first()[j]).0 == k;
                assert(s[j + 1] == s.drop_first()[j]);
            }
        }
        assert forall|k: K|
            exists|i: int| 0 <= i < s.len() && (#[trigger] s[i]).0 == k implies #[trigger] assoc_map(
            s,
        ).dom().contains(k) by {
            let i = choose|i: int| 0 <= i < s.len() && (#[trigger] s[i]).0 == k;
            if i == 0 {
                assert(assoc_map(s) == assoc_map(s.drop_first()).insert(s[0].0, s[0].1));
            } else {
                assert(s.drop_first()[i - 1] == s[i]);
                assert(exists|j: int|
                    0 <= j < s.drop_first().len() && (#[trigger] s.drop_first()[j]).0 == k);
                assert(assoc_map(s.drop_first()).dom().contains(k));
            }
        }
    }
}

/// With unique keys, each entry denotes its own value in the map.
pub proof fn lemma_assoc_value<K, V>(s: Seq<(K, V)>)
    requires
        unique_keys(s),
    ensures
        forall|i: int|
            0 <= i < s.len() ==> assoc_map(s)[(#[trigger] s[i]).0] == s[i].1,
    decreases s.len(),
{
    if s.len() > 0 {
        lemma_unique_drop_first(s);
        lemma_assoc_value(s.drop_first());
        assert forall|i: int| 0 <= i < s.len() implies assoc_map(s)[(#[trigger] s[i]).0]
            == s[i].1 by {
            if i > 0 {
                assert(s.drop_first()[i - 1] == s[i]);
                assert(s[0].0 != s[i].0);
            }
        }
    }
}

/// Dropping the first entry keeps the keys unique.
pub proof fn lemma_unique_drop_first<K, V>(s: Seq<(K, V)>)
    requires
        unique_keys(s),
        s.len() > 0,
    ensures
        unique_keys(s.drop_first()),
{
    assert forall|i: int, j: int|
        0 <= i < j < s.drop_first().len() implies (#[trigger] s.drop_first()[i]).0 != (
    #[trigger] s.drop_first()[j]).0 by {
        assert(s.drop_first()[i] == s[i + 1]);
        assert(s.drop_first()[j] == s[j + 1]);
    }
}

/// Appending an entry under a fresh key inserts it into the denoted map.
pub proof fn lemma_assoc_push<K, V>(s: Seq<(K, V)>, k: K, v: V)
    requires
        forall|i: int| 0 <= i < s.len() ==> (#[trigger] s[i]).0 != k,
    ensures
        assoc_map(s.push((k, v))) == assoc_map(s).insert(k, v),
    decreases s.len(),
{
    if s.len() == 0 {
        assert(s.push((k, v))[0] == (k, v));
        assert(s.push((k, v)).drop_first() =~= Seq::<(K, V)>::empty());
        assert(assoc_map(Seq::<(K, V)>::empty()) == Map::<K, V>::empty());
        assert(assoc_map(s) == Map::<K, V>::empty());
        assert(assoc_map(s.push((k, v))) =~= assoc_map(s).insert(k, v));
    } else {
        assert(s.push((k, v)).drop_first() =~= s.drop_first().push((k, v)));
        assert forall|i: int| 0 <= i < s.drop_first().len() implies (#[trigger] s.drop_first()[i]).0
            != k by {
            assert(s.drop_first()[i] == s[i + 1]);
        }
        lemma_assoc_push(s.drop_first(), k, v);
        assert(assoc_map(s.push((k, v))) =~= assoc_map(s).insert(k, v));
    }
}

/// Removing an entry removes its key from the denoted map, when keys
/// are unique.
pub proof fn lemma_assoc_remove<K, V>(s: Seq<(K, V)>, i: int)
    requires
        unique_keys(s),
        0 <= i < s.len(),
    ensures
        assoc_map(s.remove(i)) == assoc_map(s).remove(s[i].0),
    decreases s.len(),
{
    lemma_assoc_dom(s.drop_first());
    if i == 0 {
        assert(s.remove(0) =~= s.drop_first());
        assert(!assoc_map(s.drop_first()).dom().contains(s[0].0));
        assert(assoc_map(s.drop_first()) =~= assoc_map(s).remove(s[0].0));
    } else {
        lemma_unique_drop_first(s);
        lemma_assoc_remove(s.drop_first(), i - 1);
        assert(s.remove(i).drop_first() =~= s.drop_first().remove(i - 1));
        assert(s.drop_first()[i - 1] == s[i]);
        assert(assoc_map(s.remove(i)) =~= assoc_map(s).remove(s[i].0));
    }
}

/// Removing an entry keeps the keys unique.
pub proof fn lemma_unique_remove<K, V>(s: Seq<(K, V)>, i: int)
    requires
        unique_keys(s),
        0 <= i < s.len(),
    ensures
        unique_keys(s.remove(i)),
        forall|j: int| 0 <= j < s.remove(i).len() ==> (#[trigger] s.remove(i)[j]).0 != s[i].0,
{
    assert forall|a: int, b: int|
        0 <= a < b < s.remove(i).len() implies (#[trigger] s.remove(i)[a]).0 != (
    #[trigger] s.remove(i)[b]).0 by {
        let a0: int = if a < i { a } else { a + 1 };
        let b0: int = if b < i { b } else { b + 1 };
        assert(s.remove(i)[a] == s[a0]);
        assert(s.remove(i)[b] == s[b0]);
    }
    assert forall|j: int| 0 <= j < s.remove(i).len() implies (#[trigger] s.remove(i)[j]).0
        != s[i].0 by {
        let j0: int = if j < i { j } else { j + 1 };
        assert(s.remove(i)[j] == s[j0]);
    }
}

/// Prepending an entry under a fresh key keeps the keys unique.
pub proof fn lemma_unique_prepend<K, V>(s: Seq<(K, V)>, k: K, v: V)
    requires
        unique_keys(s),
        forall|i: int| 0 <= i < s.len() ==> (#[trigger] s[i]).0 != k,
    ensures
        unique_keys(seq![(k, v)] + s),
{
    let t = seq![(k, v)] + s;
    assert forall|a: int, b: int|
        0 <= a < b < t.len() implies (#[trigger] t[a]).0 != (#[trigger] t[b]).0 by {
        if a == 0 {
            assert(t[b] == s[b - 1]);
        } else {
            assert(t[a] == s[a - 1]);
            assert(t[b] == s[b - 1]);
        }
    }
}

/// Appending an entry under a fresh key keeps the keys unique.
pub proof fn lemma_unique_push<K, V>(s: Seq<(K, V)>, k: K, v: V)
    requires
        unique_keys(s),
        forall|i: int| 0 <= i < s.len() ==> (#[trigger] s[i]).0 != k,
    ensures
        unique_keys(s.push((k, v))),
{
    assert forall|i: int, j: int|
        0 <= i < j < s.push((k, v)).len() implies (#[trigger] s.push((k, v))[i]).0 != (
    #[trigger] s.push((k, v))[j]).0 by {
        if j < s.len() {
            assert(s.push((k, v))[i] == s[i]);
            assert(s.push((k, v))[j] == s[j]);
        } else {
            assert(s.push((k, v))[i] == s[i]);
            assert(s.push((k, v))[j] == (k, v));
        }
    }
}

} // verus!
