use vstd::prelude::*;

verus! {

/// `keys[i]` exists and is `a`.
pub open spec fn key_at(keys: Seq<Seq<u8>>, i: int, a: Seq<u8>) -> bool {
    0 <= i < keys.len() && keys[i] == a
}

/// No key stands at two places.
pub open spec fn distinct(keys: Seq<Seq<u8>>) -> bool {
    forall|i: int, j: int|
        #![trigger keys[i], keys[j]]
        0 <= i < keys.len() && 0 <= j < keys.len() && i != j ==> keys[i] != keys[j]
}

/// `a` is one of the keys.
pub open spec fn has_key(keys: Seq<Seq<u8>>, a: Seq<u8>) -> bool {
    exists|i: int| key_at(keys, i, a)
}

/// A place at which `a` stands among the keys.
pub open spec fn slot(keys: Seq<Seq<u8>>, a: Seq<u8>) -> int {
    choose|i: int| key_at(keys, i, a)
}

/// The map that a list of keys and the list of their values stand for: each
/// key is mapped to the value at the key's place.
pub open spec fn assoc<V>(keys: Seq<Seq<u8>>, vals: Seq<V>) -> Map<Seq<u8>, V> {
    Map::new(|a: Seq<u8>| has_key(keys, a), |a: Seq<u8>| vals[slot(keys, a)])
}

/// Among distinct keys, the place of `keys[i]` is `i`.
pub proof fn lemma_slot(keys: Seq<Seq<u8>>, i: int)
    requires
        distinct(keys),
        0 <= i < keys.len(),
    ensures
        has_key(keys, keys[i]),
        slot(keys, keys[i]) == i,
{
    assert(key_at(keys, i, keys[i]));
    let j = slot(keys, keys[i]);
    assert(key_at(keys, j, keys[i]));
    if j != i {
        assert(keys[i] != keys[j]);
    }
}

/// A key that is present has a place, and stands there.
pub proof fn lemma_slot_of_present(keys: Seq<Seq<u8>>, a: Seq<u8>)
    requires
        has_key(keys, a),
    ensures
        0 <= slot(keys, a) < keys.len(),
        keys[slot(keys, a)] == a,
{
    assert(key_at(keys, slot(keys, a), a));
}

/// Replacing the value at place `i` is `insert` at `keys[i]`.
pub proof fn lemma_assoc_update<V>(keys: Seq<Seq<u8>>, vals: Seq<V>, i: int, v: V)
    requires
        distinct(keys),
        keys.len() == vals.len(),
        0 <= i < keys.len(),
    ensures
        assoc(keys, vals.update(i, v)) == assoc(keys, vals).insert(keys[i], v),
{
    let m1 = assoc(keys, vals.update(i, v));
    let m2 = assoc(keys, vals).insert(keys[i], v);
    lemma_slot(keys, i);
    assert forall|a: Seq<u8>| m1.dom().contains(a) == m2.dom().contains(a) by {}
    assert forall|a: Seq<u8>| m1.dom().contains(a) implies m1[a] == m2[a] by {
        lemma_slot_of_present(keys, a);
    }
    assert(m1 =~= m2);
}

/// Appending a fresh key with its value is `insert`.
pub proof fn lemma_assoc_push<V>(keys: Seq<Seq<u8>>, vals: Seq<V>, k: Seq<u8>, v: V)
    requires
        distinct(keys),
        keys.len() == vals.len(),
        !has_key(keys, k),
    ensures
        distinct(keys.push(k)),
        assoc(keys.push(k), vals.push(v)) == assoc(keys, vals).insert(k, v),
{
    let keys2 = keys.push(k);
    let n = keys.len() as int;
    assert forall|i: int, j: int|
        0 <= i < keys2.len() && 0 <= j < keys2.len() && i != j implies keys2[i] != keys2[j] by {
        if i < n && j < n {
            assert(keys[i] != keys[j]);
        } else if i < n {
            assert(!key_at(keys, i, k));
        } else {
            assert(!key_at(keys, j, k));
        }
    }
    let m1 = assoc(keys2, vals.push(v));
    let m2 = assoc(keys, vals).insert(k, v);
    assert forall|a: Seq<u8>| m1.dom().contains(a) == m2.dom().contains(a) by {
        if has_key(keys2, a) {
            let i = slot(keys2, a);
            assert(key_at(keys2, i, a));
            if i < n {
                assert(key_at(keys, i, a));
            }
        }
        if has_key(keys, a) {
            let i = slot(keys, a);
            assert(key_at(keys, i, a));
            assert(key_at(keys2, i, a));
        }
        if a == k {
            assert(key_at(keys2, n, a));
        }
    }
    assert forall|a: Seq<u8>| m1.dom().contains(a) implies m1[a] == m2[a] by {
        lemma_slot_of_present(keys2, a);
        let i = slot(keys2, a);
        if i < n {
            assert(key_at(keys, i, a));
            lemma_slot(keys, i);
        }
    }
    assert(m1 =~= m2);
}

/// Taking out place `i` is `remove` at `keys[i]`.
pub proof fn lemma_assoc_remove<V>(keys: Seq<Seq<u8>>, vals: Seq<V>, i: int)
    requires
        distinct(keys),
        keys.len() == vals.len(),
        0 <= i < keys.len(),
    ensures
        distinct(keys.remove(i)),
        assoc(keys.remove(i), vals.remove(i)) == assoc(keys, vals).remove(keys[i]),
{
    let keys2 = keys.remove(i);
    let vals2 = vals.remove(i);
    assert forall|p: int, q: int|
        0 <= p < keys2.len() && 0 <= q < keys2.len() && p != q implies keys2[p] != keys2[q] by {
        let p0 = if p < i { p } else { p + 1 };
        let q0 = if q < i { q } else { q + 1 };
        assert(keys[p0] != keys[q0]);
    }
    let m1 = assoc(keys2, vals2);
    let m2 = assoc(keys, vals).remove(keys[i]);
    assert forall|a: Seq<u8>| m1.dom().contains(a) == m2.dom().contains(a) by {
        if has_key(keys2, a) {
            let p = slot(keys2, a);
            assert(key_at(keys2, p, a));
            let p0 = if p < i { p } else { p + 1 };
            assert(key_at(keys, p0, a));
            assert(keys[p0] != keys[i]);
        }
        if has_key(keys, a) && a != keys[i] {
            let p0 = slot(keys, a);
            assert(key_at(keys, p0, a));
            let p = if p0 < i { p0 } else { p0 - 1 };
            assert(key_at(keys2, p, a));
        }
    }
    assert forall|a: Seq<u8>| m1.dom().contains(a) implies m1[a] == m2[a] by {
        lemma_slot_of_present(keys2, a);
        let p = slot(keys2, a);
        let p0 = if p < i { p } else { p + 1 };
        assert(key_at(keys, p0, a));
        lemma_slot(keys, p0);
    }
    assert(m1 =~= m2);
}

} // verus!
