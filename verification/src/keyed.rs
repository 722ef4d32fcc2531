//! Sequences of keyed records, read as maps.
//!
//! The registry, the connection pool and the trust sets keep their records in
//! a `Vec` whose keys are pairwise distinct; these definitions and lemmas turn
//! such a vector into a `Map` from key to record and follow the map through
//! push, in-place update and removal.
use vstd::prelude::*;

verus! {

/// No two records of `v` share a key.
pub open spec fn key_unique<T, K>(v: Seq<T>, key: spec_fn(T) -> K) -> bool {
    forall|i: int, j: int|
        0 <= i < v.len() && 0 <= j < v.len() && #[trigger] key(v[i]) == #[trigger] key(v[j]) ==> i
            == j
}

/// Some record of `v` has key `k`.
pub open spec fn has_key<T, K>(v: Seq<T>, key: spec_fn(T) -> K, k: K) -> bool {
    exists|i: int| 0 <= i < v.len() && #[trigger] key(v[i]) == k
}

/// An index of a record of `v` with key `k` (meaningful when there is one).
pub open spec fn index_of_key<T, K>(v: Seq<T>, key: spec_fn(T) -> K, k: K) -> int {
    choose|i: int| 0 <= i < v.len() && #[trigger] key(v[i]) == k
}

/// `v` read as a map from key to record.
pub open spec fn keyed_map<T, K>(v: Seq<T>, key: spec_fn(T) -> K) -> Map<K, T> {
    Map::new(|k: K| has_key(v, key, k), |k: K| v[index_of_key(v, key, k)])
}

/// The keys of `v`.
pub open spec fn key_set<T, K>(v: Seq<T>, key: spec_fn(T) -> K) -> Set<K> {
    keyed_map(v, key).dom()
}

/// The record at index `i` is what the map holds under its key.
pub proof fn lemma_keyed_index<T, K>(v: Seq<T>, key: spec_fn(T) -> K, i: int)
    requires
        key_unique(v, key),
        0 <= i < v.len(),
    ensures
        keyed_map(v, key).contains_key(key(v[i])),
        keyed_map(v, key)[key(v[i])] == v[i],
{
    let k = key(v[i]);
    assert(has_key(v, key, k));
    let j = index_of_key(v, key, k);
    assert(key(v[j]) == k);
}

/// The map of the empty sequence is empty.
pub proof fn lemma_keyed_empty<T, K>(v: Seq<T>, key: spec_fn(T) -> K)
    requires
        v.len() == 0,
    ensures
        key_unique(v, key),
        keyed_map(v, key) == Map::<K, T>::empty(),
{
    assert(keyed_map(v, key) =~= Map::<K, T>::empty());
}

/// Appending a record with a new key inserts it into the map.
pub proof fn lemma_keyed_push<T, K>(v: Seq<T>, key: spec_fn(T) -> K, x: T)
    requires
        key_unique(v, key),
        !has_key(v, key, key(x)),
    ensures
        key_unique(v.push(x), key),
        keyed_map(v.push(x), key) == keyed_map(v, key).insert(key(x), x),
{
    let w = v.push(x);
    assert forall|i: int, j: int|
        0 <= i < w.len() && 0 <= j < w.len() && #[trigger] key(w[i]) == #[trigger] key(w[j]) implies i
        == j by {
        if i < v.len() && j < v.len() {
            assert(w[i] == v[i] && w[j] == v[j]);
        } else if i < v.len() {
            assert(w[i] == v[i]);
        } else if j < v.len() {
            assert(w[j] == v[j]);
        }
    }
    let m = keyed_map(v, key).insert(key(x), x);
    assert forall|k: K| #[trigger] keyed_map(w, key).contains_key(k) <==> m.contains_key(k) by {
        if has_key(v, key, k) {
            let i = index_of_key(v, key, k);
            assert(w[i] == v[i]);
        }
        if k == key(x) {
            assert(w[v.len() as int] == x);
        }
        if has_key(w, key, k) {
            let i = index_of_key(w, key, k);
            if i < v.len() {
                assert(w[i] == v[i]);
            }
        }
    }
    assert forall|k: K| #[trigger] keyed_map(w, key).contains_key(k) implies keyed_map(w, key)[k]
        == m[k] by {
        let i = index_of_key(w, key, k);
        if k == key(x) {
            assert(w[v.len() as int] == x);
            assert(i == v.len());
        } else {
            assert(i < v.len());
            assert(w[i] == v[i]);
            lemma_keyed_index(v, key, i);
        }
    }
    assert(keyed_map(w, key) =~= m);
}

/// Replacing the record at `i` by one with the same key updates the map.
pub proof fn lemma_keyed_update<T, K>(v: Seq<T>, key: spec_fn(T) -> K, i: int, x: T)
    requires
        key_unique(v, key),
        0 <= i < v.len(),
        key(x) == key(v[i]),
    ensures
        key_unique(v.update(i, x), key),
        keyed_map(v.update(i, x), key) == keyed_map(v, key).insert(key(x), x),
{
    let w = v.update(i, x);
    assert forall|a: int, b: int|
        0 <= a < w.len() && 0 <= b < w.len() && #[trigger] key(w[a]) == #[trigger] key(w[b]) implies a
        == b by {
        if a != i && b != i {
            assert(w[a] == v[a] && w[b] == v[b]);
        } else if a != i {
            assert(w[a] == v[a]);
            assert(key(v[a]) == key(v[i]));
        } else if b != i {
            assert(w[b] == v[b]);
            assert(key(v[b]) == key(v[i]));
        }
    }
    let m = keyed_map(v, key).insert(key(x), x);
    assert forall|k: K| #[trigger] keyed_map(w, key).contains_key(k) <==> m.contains_key(k) by {
        if has_key(v, key, k) {
            let j = index_of_key(v, key, k);
            if j != i {
                assert(w[j] == v[j]);
            } else {
                assert(w[i] == x);
            }
        }
        if k == key(x) {
            assert(w[i] == x);
        }
        if has_key(w, key, k) {
            let j = index_of_key(w, key, k);
            if j != i {
                assert(w[j] == v[j]);
            }
        }
    }
    assert forall|k: K| #[trigger] keyed_map(w, key).contains_key(k) implies keyed_map(w, key)[k]
        == m[k] by {
        let j = index_of_key(w, key, k);
        if k == key(x) {
            assert(w[i] == x);
            assert(j == i);
        } else {
            assert(j != i);
            assert(w[j] == v[j]);
            lemma_keyed_index(v, key, j);
        }
    }
    assert(keyed_map(w, key) =~= m);
}

/// Removing the record at `i` removes its key from the map.
pub proof fn lemma_keyed_remove<T, K>(v: Seq<T>, key: spec_fn(T) -> K, i: int)
    requires
        key_unique(v, key),
        0 <= i < v.len(),
    ensures
        key_unique(v.remove(i), key),
        keyed_map(v.remove(i), key) == keyed_map(v, key).remove(key(v[i])),
{
    let w = v.remove(i);
    assert forall|a: int, b: int|
        0 <= a < w.len() && 0 <= b < w.len() && #[trigger] key(w[a]) == #[trigger] key(w[b]) implies a
        == b by {
        let a2 = if a < i { a } else { a + 1 };
        let b2 = if b < i { b } else { b + 1 };
        assert(w[a] == v[a2]);
        assert(w[b] == v[b2]);
    }
    let m = keyed_map(v, key).remove(key(v[i]));
    assert forall|k: K| #[trigger] keyed_map(w, key).contains_key(k) <==> m.contains_key(k) by {
        if has_key(v, key, k) && k != key(v[i]) {
            let j = index_of_key(v, key, k);
            assert(j != i);
            if j < i {
                assert(w[j] == v[j]);
            } else {
                assert(w[j - 1] == v[j]);
            }
        }
        if has_key(w, key, k) {
            let j = index_of_key(w, key, k);
            let j2 = if j < i { j } else { j + 1 };
            assert(w[j] == v[j2]);
            assert(j2 != i);
        }
    }
    assert forall|k: K| #[trigger] keyed_map(w, key).contains_key(k) implies keyed_map(w, key)[k]
        == m[k] by {
        let j = index_of_key(w, key, k);
        let j2 = if j < i { j } else { j + 1 };
        assert(w[j] == v[j2]);
        lemma_keyed_index(v, key, j2);
    }
    assert(keyed_map(w, key) =~= m);
}

/// A sequence with distinct keys has as many keys as records.
pub proof fn lemma_keyed_len<T, K>(v: Seq<T>, key: spec_fn(T) -> K)
    requires
        key_unique(v, key),
    ensures
        keyed_map(v, key).dom().finite(),
        keyed_map(v, key).dom().len() == v.len(),
    decreases v.len(),
{
    if v.len() == 0 {
        lemma_keyed_empty(v, key);
    } else {
        let u = v.drop_last();
        let x = v.last();
        assert forall|i: int, j: int|
            0 <= i < u.len() && 0 <= j < u.len() && #[trigger] key(u[i]) == #[trigger] key(u[j]) implies i
            == j by {
            assert(u[i] == v[i] && u[j] == v[j]);
        }
        lemma_keyed_len(u, key);
        if has_key(u, key, key(x)) {
            let i = index_of_key(u, key, key(x));
            assert(u[i] == v[i]);
            assert(v[v.len() - 1] == x);
        }
        lemma_keyed_push(u, key, x);
        assert(u.push(x) =~= v);
    }
}

} // verus!
