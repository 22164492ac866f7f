//! A sequence of records with unique keys, seen as a map from key to record.
use vstd::prelude::*;

verus! {

/// Some record of `s` has key `k`.
pub open spec fn has_key<K, V>(s: Seq<V>, key: spec_fn(V) -> K, k: K) -> bool {
    exists|i: int| 0 <= i < s.len() && key(s[i]) == k
}

/// No two records of `s` share a key.
pub open spec fn keys_unique<K, V>(s: Seq<V>, key: spec_fn(V) -> K) -> bool {
    forall|i: int, j: int|
        0 <= i < s.len() && 0 <= j < s.len() && #[trigger] key(s[i]) == #[trigger] key(s[j]) ==> i
            == j
}

/// The map from each key present in `s` to the record that carries it.
pub open spec fn keyed<K, V>(s: Seq<V>, key: spec_fn(V) -> K) -> Map<K, V> {
    Map::new(
        |k: K| has_key(s, key, k),
        |k: K| s[choose|i: int| 0 <= i < s.len() && key(s[i]) == k],
    )
}

/// With unique keys, the record at position `i` is the one the map holds under its key.
pub proof fn lemma_keyed_at<K, V>(s: Seq<V>, key: spec_fn(V) -> K, i: int)
    requires
        keys_unique(s, key),
        0 <= i < s.len(),
    ensures
        keyed(s, key).contains_key(key(s[i])),
        keyed(s, key)[key(s[i])] == s[i],
{
    let k = key(s[i]);
    assert(has_key(s, key, k));
    let j = choose|j: int| 0 <= j < s.len() && key(s[j]) == k;
    assert(key(s[j]) == key(s[i]));
}

/// Appending a record with a fresh key keeps keys unique and adds one entry to the map.
pub proof fn lemma_keyed_push<K, V>(s: Seq<V>, key: spec_fn(V) -> K, v: V)
    requires
        keys_unique(s, key),
        !has_key(s, key, key(v)),
    ensures
        keys_unique(s.push(v), key),
        keyed(s.push(v), key) == keyed(s, key).insert(key(v), v),
{
    let t = s.push(v);
    assert forall|i: int, j: int|
        0 <= i < t.len() && 0 <= j < t.len() && #[trigger] key(t[i]) == #[trigger] key(t[j]) implies i
        == j by {
        if i < s.len() && j < s.len() {
            assert(key(s[i]) == key(s[j]));
        } else if i < s.len() {
            assert(key(s[i]) == key(v));
        } else if j < s.len() {
            assert(key(s[j]) == key(v));
        }
    }
    let m = keyed(t, key);
    let n = keyed(s, key).insert(key(v), v);
    assert forall|k: K| m.contains_key(k) <==> n.contains_key(k) by {
        if has_key(t, key, k) && k != key(v) {
            let i = choose|i: int| 0 <= i < t.len() && key(t[i]) == k;
            assert(i < s.len());
            assert(key(s[i]) == k);
        }
        if has_key(s, key, k) {
            let i = choose|i: int| 0 <= i < s.len() && key(s[i]) == k;
            assert(key(t[i]) == k);
        }
        if k == key(v) {
            assert(key(t[s.len() as int]) == k);
        }
    }
    assert forall|k: K| m.contains_key(k) implies m[k] == n[k] by {
        let i = choose|i: int| 0 <= i < t.len() && key(t[i]) == k;
        if k == key(v) {
            assert(key(t[s.len() as int]) == k);
        } else {
            assert(i < s.len());
            assert(key(s[i]) == k);
            lemma_keyed_at(s, key, i);
        }
    }
    assert(m =~= n);
}

/// Replacing a record by one with the same key keeps keys unique and updates that entry.
pub proof fn lemma_keyed_update<K, V>(s: Seq<V>, key: spec_fn(V) -> K, i: int, v: V)
    requires
        keys_unique(s, key),
        0 <= i < s.len(),
        key(v) == key(s[i]),
    ensures
        keys_unique(s.update(i, v), key),
        keyed(s.update(i, v), key) == keyed(s, key).insert(key(v), v),
{
    let t = s.update(i, v);
    assert forall|a: int, b: int|
        0 <= a < t.len() && 0 <= b < t.len() && #[trigger] key(t[a]) == #[trigger] key(t[b]) implies a
        == b by {
        assert(key(t[a]) == key(s[a]));
        assert(key(t[b]) == key(s[b]));
    }
    let m = keyed(t, key);
    let n = keyed(s, key).insert(key(v), v);
    assert forall|k: K| m.contains_key(k) <==> n.contains_key(k) by {
        if has_key(t, key, k) {
            let a = choose|a: int| 0 <= a < t.len() && key(t[a]) == k;
            assert(key(s[a]) == k);
        }
        if has_key(s, key, k) {
            let a = choose|a: int| 0 <= a < s.len() && key(s[a]) == k;
            assert(key(t[a]) == k);
        }
        if k == key(v) {
            assert(key(t[i]) == k);
        }
    }
    assert forall|k: K| m.contains_key(k) implies m[k] == n[k] by {
        let a = choose|a: int| 0 <= a < t.len() && key(t[a]) == k;
        assert(key(s[a]) == key(t[a]));
        if a == i {
            assert(k == key(v));
        } else {
            assert(k != key(v));
            lemma_keyed_at(s, key, a);
        }
    }
    assert(m =~= n);
}

} // verus!
