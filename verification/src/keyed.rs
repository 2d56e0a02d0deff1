//! Records held in a sequence and looked up by a key that each record
//! carries. A key maps to the first record that carries it, so any sequence
//! denotes a well-defined map, duplicates or not.
use vstd::prelude::*;

verus! {

/// Some record of `s` carries the key `k`.
pub open spec fn has_key<T, K>(s: Seq<T>, key: spec_fn(T) -> K, k: K) -> bool {
    exists|i: int| 0 <= i < s.len() && #[trigger] key(s[i]) == k
}

/// `i` is the position of the first record of `s` that carries `k`.
pub open spec fn is_first_index<T, K>(s: Seq<T>, key: spec_fn(T) -> K, k: K, i: int) -> bool {
    &&& 0 <= i < s.len()
    &&& key(s[i]) == k
    &&& forall|j: int| 0 <= j < i ==> #[trigger] key(s[j]) != k
}

/// The position of the first record that carries `k` (meaningful when `has_key`).
pub open spec fn first_index<T, K>(s: Seq<T>, key: spec_fn(T) -> K, k: K) -> int {
    choose|i: int| is_first_index(s, key, k, i)
}

/// The map denoted by a sequence of keyed records: each key that occurs is
/// bound to `val` of its first record.
pub open spec fn keyed_map<T, K, V>(s: Seq<T>, key: spec_fn(T) -> K, val: spec_fn(T) -> V) -> Map<K, V> {
    Map::new(|k: K| has_key(s, key, k), |k: K| val(s[first_index(s, key, k)]))
}

/// The value bound to `k`, if any.
pub open spec fn lookup<K, V>(m: Map<K, V>, k: K) -> Option<V> {
    if m.contains_key(k) {
        Some(m[k])
    } else {
        None
    }
}

proof fn lemma_first_index_exists<T, K>(s: Seq<T>, key: spec_fn(T) -> K, k: K, i: int)
    requires
        0 <= i < s.len(),
        key(s[i]) == k,
    ensures
        is_first_index(s, key, k, first_index(s, key, k)),
    decreases i,
{
    if exists|j: int| 0 <= j < i && #[trigger] key(s[j]) == k {
        let j = choose|j: int| 0 <= j < i && #[trigger] key(s[j]) == k;
        lemma_first_index_exists(s, key, k, j);
    } else {
        assert(is_first_index(s, key, k, i));
    }
}

proof fn lemma_first_index_unique<T, K>(s: Seq<T>, key: spec_fn(T) -> K, k: K, i: int, j: int)
    requires
        is_first_index(s, key, k, i),
        is_first_index(s, key, k, j),
    ensures
        i == j,
{
    if i < j {
        assert(key(s[i]) != k);
    } else if j < i {
        assert(key(s[j]) != k);
    }
}

/// The record at the first position of its key is what the map holds for it.
pub proof fn lemma_keyed_lookup<T, K, V>(s: Seq<T>, key: spec_fn(T) -> K, val: spec_fn(T) -> V, i: int)
    requires
        is_first_index(s, key, key(s[i]), i),
    ensures
        keyed_map(s, key, val).contains_key(key(s[i])),
        keyed_map(s, key, val)[key(s[i])] == val(s[i]),
{
    let k = key(s[i]);
    lemma_first_index_exists(s, key, k, i);
    lemma_first_index_unique(s, key, k, i, first_index(s, key, k));
}

/// A key that no record carries is not in the map.
pub proof fn lemma_keyed_absent<T, K, V>(s: Seq<T>, key: spec_fn(T) -> K, val: spec_fn(T) -> V, k: K)
    requires
        !has_key(s, key, k),
    ensures
        !keyed_map(s, key, val).contains_key(k),
{
}

/// Appending a record with a fresh key binds that key and nothing else.
pub proof fn lemma_keyed_push<T, K, V>(s: Seq<T>, key: spec_fn(T) -> K, val: spec_fn(T) -> V, x: T)
    requires
        !has_key(s, key, key(x)),
    ensures
        keyed_map(s.push(x), key, val) == keyed_map(s, key, val).insert(key(x), val(x)),
{
    let t = s.push(x);
    let m1 = keyed_map(t, key, val);
    let m2 = keyed_map(s, key, val).insert(key(x), val(x));
    assert forall|k: K| #[trigger] m1.contains_key(k) == m2.contains_key(k) by {
        if has_key(s, key, k) {
            let i = choose|i: int| 0 <= i < s.len() && #[trigger] key(s[i]) == k;
            assert(key(t[i]) == k);
        }
        if k == key(x) {
            assert(key(t[s.len() as int]) == k);
        }
        if has_key(t, key, k) && k != key(x) {
            let i = choose|i: int| 0 <= i < t.len() && #[trigger] key(t[i]) == k;
            assert(i < s.len());
            assert(key(s[i]) == k);
        }
    }
    assert forall|k: K| m1.contains_key(k) implies #[trigger] m1[k] == m2[k] by {
        if k == key(x) {
            let n = s.len() as int;
            assert(key(t[n]) == k);
            assert forall|j: int| 0 <= j < n implies #[trigger] key(t[j]) != k by {
                assert(t[j] == s[j]);
            }
            assert(is_first_index(t, key, k, n));
            lemma_keyed_lookup(t, key, val, n);
        } else {
            let i = choose|i: int| 0 <= i < t.len() && #[trigger] key(t[i]) == k;
            assert(i < s.len());
            assert(key(s[i]) == k);
            lemma_first_index_exists(s, key, k, i);
            let f = first_index(s, key, k);
            assert(t[f] == s[f]);
            assert forall|j: int| 0 <= j < f implies #[trigger] key(t[j]) != k by {
                assert(t[j] == s[j]);
            }
            assert(is_first_index(t, key, k, f));
            lemma_keyed_lookup(t, key, val, f);
            lemma_keyed_lookup(s, key, val, f);
        }
    }
    assert(m1 =~= m2);
}

/// Replacing the first record of a key binds the key to the new record.
pub proof fn lemma_keyed_update<T, K, V>(
    s: Seq<T>,
    key: spec_fn(T) -> K,
    val: spec_fn(T) -> V,
    i: int,
    x: T,
)
    requires
        is_first_index(s, key, key(x), i),
    ensures
        keyed_map(s.update(i, x), key, val) == keyed_map(s, key, val).insert(key(x), val(x)),
{
    let t = s.update(i, x);
    let m1 = keyed_map(t, key, val);
    let m2 = keyed_map(s, key, val).insert(key(x), val(x));
    assert forall|k: K| #[trigger] m1.contains_key(k) == m2.contains_key(k) by {
        if has_key(s, key, k) {
            let j = choose|j: int| 0 <= j < s.len() && #[trigger] key(s[j]) == k;
            if j == i {
                assert(key(t[i]) == k);
            } else {
                assert(key(t[j]) == k);
            }
        }
        if k == key(x) {
            assert(key(t[i]) == k);
        }
        if has_key(t, key, k) && k != key(x) {
            let j = choose|j: int| 0 <= j < t.len() && #[trigger] key(t[j]) == k;
            assert(j != i);
            assert(key(s[j]) == k);
        }
    }
    assert forall|k: K| m1.contains_key(k) implies #[trigger] m1[k] == m2[k] by {
        if k == key(x) {
            assert forall|j: int| 0 <= j < i implies #[trigger] key(t[j]) != k by {
                assert(t[j] == s[j]);
            }
            assert(is_first_index(t, key, k, i));
            lemma_keyed_lookup(t, key, val, i);
        } else {
            let j = choose|j: int| 0 <= j < t.len() && #[trigger] key(t[j]) == k;
            assert(j != i);
            assert(key(s[j]) == k);
            lemma_first_index_exists(s, key, k, j);
            let f = first_index(s, key, k);
            assert(f != i);
            assert(t[f] == s[f]);
            assert forall|l: int| 0 <= l < f implies #[trigger] key(t[l]) != k by {
                if l != i {
                    assert(t[l] == s[l]);
                }
            }
            assert(is_first_index(t, key, k, f));
            lemma_keyed_lookup(t, key, val, f);
            lemma_keyed_lookup(s, key, val, f);
        }
    }
    assert(m1 =~= m2);
}

/// A key in the map is carried by the record it is bound to.
pub proof fn lemma_keyed_first<T, K, V>(s: Seq<T>, key: spec_fn(T) -> K, val: spec_fn(T) -> V, k: K)
    requires
        keyed_map(s, key, val).contains_key(k),
    ensures
        is_first_index(s, key, k, first_index(s, key, k)),
        keyed_map(s, key, val)[k] == val(s[first_index(s, key, k)]),
{
    let i = choose|i: int| 0 <= i < s.len() && #[trigger] key(s[i]) == k;
    lemma_first_index_exists(s, key, k, i);
}

} // verus!
