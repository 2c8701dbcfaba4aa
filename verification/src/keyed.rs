//! Association lists keyed by byte strings, seen as maps.

use vstd::prelude::*;

verus! {

/// The map that a list of (key, value) entries stands for; a later entry
/// wins over an earlier one with the same key.
pub open spec fn keyed<V>(s: Seq<(Seq<u8>, V)>) -> Map<Seq<u8>, V>
    decreases s.len(),
{
    if s.len() == 0 {
        Map::empty()
    } else {
        keyed(s.drop_last()).insert(s.last().0, s.last().1)
    }
}

/// No two entries of the list have the same key.
pub open spec fn distinct_keys<V>(s: Seq<(Seq<u8>, V)>) -> bool {
    forall|i: int, j: int| 0 <= i < j < s.len() ==> s[i].0 != s[j].0
}

/// Each entry of a list without repeated keys is in its map.
pub proof fn lemma_keyed_contains<V>(s: Seq<(Seq<u8>, V)>, i: int)
    requires
        distinct_keys(s),
        0 <= i < s.len(),
    ensures
        keyed(s).contains_key(s[i].0),
        keyed(s)[s[i].0] == s[i].1,
    decreases s.len(),
{
    if i < s.len() - 1 {
        let t = s.drop_last();
        assert(s[i] == t[i]);
        lemma_keyed_contains(t, i);
    }
}

/// A key that no entry has is not in the map.
pub proof fn lemma_keyed_absent<V>(s: Seq<(Seq<u8>, V)>, k: Seq<u8>)
    requires
        forall|i: int| 0 <= i < s.len() ==> s[i].0 != k,
    ensures
        !keyed(s).contains_key(k),
    decreases s.len(),
{
    if s.len() > 0 {
        let t = s.drop_last();
        assert forall|i: int| 0 <= i < t.len() implies t[i].0 != k by {
            assert(t[i] == s[i]);
        }
        lemma_keyed_absent(t, k);
    }
}

/// Replacing the value of an entry replaces it in the map.
pub proof fn lemma_keyed_update<V>(s: Seq<(Seq<u8>, V)>, i: int, v: (Seq<u8>, V))
    requires
        distinct_keys(s),
        0 <= i < s.len(),
        v.0 == s[i].0,
    ensures
        keyed(s.update(i, v)) == keyed(s).insert(v.0, v.1),
        distinct_keys(s.update(i, v)),
    decreases s.len(),
{
    let u = s.update(i, v);
    let t = s.drop_last();
    if i == s.len() - 1 {
        assert(u.drop_last() =~= t);
        assert(keyed(u) =~= keyed(s).insert(v.0, v.1));
    } else {
        assert(u.drop_last() =~= t.update(i, v));
        lemma_keyed_update(t, i, v);
        assert(s.last().0 != v.0);
        assert(keyed(u) =~= keyed(s).insert(v.0, v.1));
    }
    assert forall|a: int, b: int| 0 <= a < b < u.len() implies u[a].0 != u[b].0 by {
        assert(u[a].0 == s[a].0);
        assert(u[b].0 == s[b].0);
    }
}

/// Appending an entry with a new key adds it to the map.
pub proof fn lemma_keyed_push<V>(s: Seq<(Seq<u8>, V)>, v: (Seq<u8>, V))
    requires
        distinct_keys(s),
        forall|i: int| 0 <= i < s.len() ==> s[i].0 != v.0,
    ensures
        keyed(s.push(v)) == keyed(s).insert(v.0, v.1),
        distinct_keys(s.push(v)),
{
    assert(s.push(v).drop_last() =~= s);
    let u = s.push(v);
    assert forall|a: int, b: int| 0 <= a < b < u.len() implies u[a].0 != u[b].0 by {
        assert(u[a] == s[a]);
        if b < s.len() {
            assert(u[b] == s[b]);
        }
    }
}

/// Removing an entry removes its key from the map.
pub proof fn lemma_keyed_remove<V>(s: Seq<(Seq<u8>, V)>, i: int)
    requires
        distinct_keys(s),
        0 <= i < s.len(),
    ensures
        keyed(s.remove(i)) == keyed(s).remove(s[i].0),
        distinct_keys(s.remove(i)),
    decreases s.len(),
{
    let u = s.remove(i);
    let t = s.drop_last();
    let k = s[i].0;
    if i == s.len() - 1 {
        assert(u =~= t);
        assert forall|j: int| 0 <= j < t.len() implies t[j].0 != k by {
            assert(t[j] == s[j]);
        }
        lemma_keyed_absent(t, k);
        assert(keyed(u) =~= keyed(s).remove(k));
    } else {
        assert(u.drop_last() =~= t.remove(i));
        assert(t[i] == s[i]);
        lemma_keyed_remove(t, i);
        assert(s.last().0 != k);
        assert(keyed(u) =~= keyed(s).remove(k));
    }
    assert forall|a: int, b: int| 0 <= a < b < u.len() implies u[a].0 != u[b].0 by {
        let a2 = if a < i { a } else { a + 1 };
        let b2 = if b < i { b } else { b + 1 };
        assert(u[a] == s[a2]);
        assert(u[b] == s[b2]);
    }
}

} // verus!
