//! Lists of records with distinct keys, read as maps from key to record.

use vstd::prelude::*;

verus! {

/// No two records of `s` share a key.
pub open spec fn keys_distinct<A, K>(s: Seq<A>, key: spec_fn(A) -> K) -> bool {
    forall|i: int, j: int| 0 <= i < s.len() && 0 <= j < s.len() && i != j ==> key(#[trigger] s[i]) != key(#[trigger] s[j])
}

/// The value `val` of each record of `s`, by the record's key; a later
/// record overrides an earlier one.
pub open spec fn keyed<A, K, V>(s: Seq<A>, key: spec_fn(A) -> K, val: spec_fn(A) -> V) -> Map<K, V>
    decreases s.len(),
{
    if s.len() == 0 {
        Map::empty()
    } else {
        keyed(s.drop_last(), key, val).insert(key(s.last()), val(s.last()))
    }
}

/// With distinct keys, the map holds exactly the keys of the list, each
/// with its record.
pub proof fn lemma_keyed<A, K, V>(s: Seq<A>, key: spec_fn(A) -> K, val: spec_fn(A) -> V)
    requires
        keys_distinct(s, key),
    ensures
        forall|k: K| keyed(s, key, val).contains_key(k) <==> exists|i: int| 0 <= i < s.len() && key(#[trigger] s[i]) == k,
        forall|i: int| 0 <= i < s.len() ==> keyed(s, key, val).contains_key(key(#[trigger] s[i]))
            && keyed(s, key, val)[key(s[i])] == val(s[i]),
    decreases s.len(),
{
    if s.len() > 0 {
        let w = s.drop_last();
        assert(keys_distinct(w, key));
        lemma_keyed(w, key, val);
        assert forall|k: K| keyed(s, key, val).contains_key(k) implies exists|i: int| 0 <= i < s.len() && key(#[trigger] s[i]) == k by {
            if k == key(s.last()) {
                assert(key(s[s.len() - 1]) == k);
            } else {
                assert(keyed(w, key, val).contains_key(k));
                let i = choose|i: int| 0 <= i < w.len() && key(#[trigger] w[i]) == k;
                assert(s[i] == w[i]);
            }
        }
        assert forall|i: int| 0 <= i < s.len() implies keyed(s, key, val).contains_key(key(#[trigger] s[i]))
            && keyed(s, key, val)[key(s[i])] == val(s[i]) by {
            if i < s.len() - 1 {
                assert(s[i] == w[i]);
                assert(key(s[i]) != key(s[s.len() - 1]));
            }
        }
    }
}

/// With distinct keys, the map has as many entries as the list has
/// records.
pub proof fn lemma_keyed_len<A, K, V>(s: Seq<A>, key: spec_fn(A) -> K, val: spec_fn(A) -> V)
    requires
        keys_distinct(s, key),
    ensures
        keyed(s, key, val).dom().finite(),
        keyed(s, key, val).len() == s.len(),
    decreases s.len(),
{
    if s.len() > 0 {
        let w = s.drop_last();
        assert forall|a: int, b: int| 0 <= a < w.len() && 0 <= b < w.len() && a != b implies key(#[trigger] w[a]) != key(#[trigger] w[b]) by {
            assert(w[a] == s[a]);
            assert(w[b] == s[b]);
        }
        lemma_keyed_len(w, key, val);
        lemma_keyed(w, key, val);
        assert(!keyed(w, key, val).contains_key(key(s.last()))) by {
            if keyed(w, key, val).contains_key(key(s.last())) {
                let i = choose|i: int| 0 <= i < w.len() && key(#[trigger] w[i]) == key(s.last());
                assert(w[i] == s[i]);
                assert(s.last() == s[s.len() - 1]);
            }
        }
        assert(keyed(s, key, val).dom() =~= keyed(w, key, val).dom().insert(key(s.last())));
    }
}

/// Appending a record with a new key keeps the keys distinct.
pub proof fn lemma_keyed_push<A, K, V>(s: Seq<A>, key: spec_fn(A) -> K, val: spec_fn(A) -> V, x: A)
    requires
        keys_distinct(s, key),
        !keyed(s, key, val).contains_key(key(x)),
    ensures
        keys_distinct(s.push(x), key),
        keyed(s.push(x), key, val) == keyed(s, key, val).insert(key(x), val(x)),
{
    lemma_keyed(s, key, val);
    let w = s.push(x);
    assert(w.drop_last() =~= s);
    assert forall|a: int, b: int| 0 <= a < w.len() && 0 <= b < w.len() && a != b implies key(#[trigger] w[a]) != key(#[trigger] w[b]) by {
        if a < s.len() {
            assert(w[a] == s[a]);
        }
        if b < s.len() {
            assert(w[b] == s[b]);
        }
    }
}

/// Removing the record at `i` removes its key from the map.
pub proof fn lemma_keyed_remove<A, K, V>(s: Seq<A>, key: spec_fn(A) -> K, val: spec_fn(A) -> V, i: int)
    requires
        keys_distinct(s, key),
        0 <= i < s.len(),
    ensures
        keys_distinct(s.remove(i), key),
        keyed(s.remove(i), key, val) == keyed(s, key, val).remove(key(s[i])),
{
    let w = s.remove(i);
    assert forall|a: int, b: int| 0 <= a < w.len() && 0 <= b < w.len() && a != b implies key(#[trigger] w[a]) != key(#[trigger] w[b]) by {
        let a2 = if a < i { a } else { a + 1 };
        let b2 = if b < i { b } else { b + 1 };
        assert(w[a] == s[a2]);
        assert(w[b] == s[b2]);
    }
    lemma_keyed(s, key, val);
    lemma_keyed(w, key, val);
    let lhs = keyed(w, key, val);
    let rhs = keyed(s, key, val).remove(key(s[i]));
    assert forall|k: K| lhs.contains_key(k) <==> rhs.contains_key(k) by {
        if lhs.contains_key(k) {
            let a = choose|a: int| 0 <= a < w.len() && key(#[trigger] w[a]) == k;
            let a2 = if a < i { a } else { a + 1 };
            assert(w[a] == s[a2]);
        }
        if rhs.contains_key(k) {
            let a = choose|a: int| 0 <= a < s.len() && key(#[trigger] s[a]) == k;
            assert(a != i);
            let a2 = if a < i { a } else { a - 1 };
            assert(w[a2] == s[a]);
        }
    }
    assert forall|k: K| lhs.contains_key(k) implies lhs[k] == rhs[k] by {
        let a = choose|a: int| 0 <= a < w.len() && key(#[trigger] w[a]) == k;
        let a2 = if a < i { a } else { a + 1 };
        assert(w[a] == s[a2]);
    }
    assert(lhs =~= rhs);
}

/// Replacing the record at `i` by one with the same key replaces it in
/// the map.
pub proof fn lemma_keyed_update<A, K, V>(s: Seq<A>, key: spec_fn(A) -> K, val: spec_fn(A) -> V, i: int, x: A)
    requires
        keys_distinct(s, key),
        0 <= i < s.len(),
        key(x) == key(s[i]),
    ensures
        keys_distinct(s.update(i, x), key),
        keyed(s.update(i, x), key, val) == keyed(s, key, val).insert(key(x), val(x)),
{
    let w = s.update(i, x);
    assert forall|a: int, b: int| 0 <= a < w.len() && 0 <= b < w.len() && a != b implies key(#[trigger] w[a]) != key(#[trigger] w[b]) by {
        if a != i {
            assert(w[a] == s[a]);
        }
        if b != i {
            assert(w[b] == s[b]);
        }
    }
    lemma_keyed(s, key, val);
    lemma_keyed(w, key, val);
    let lhs = keyed(w, key, val);
    let rhs = keyed(s, key, val).insert(key(x), val(x));
    assert forall|k: K| lhs.contains_key(k) <==> rhs.contains_key(k) by {
        if lhs.contains_key(k) {
            let a = choose|a: int| 0 <= a < w.len() && key(#[trigger] w[a]) == k;
            if a != i {
                assert(w[a] == s[a]);
            }
        }
        if k == key(x) {
            assert(w[i] == x);
        }
        if rhs.contains_key(k) && k != key(x) {
            let a = choose|a: int| 0 <= a < s.len() && key(#[trigger] s[a]) == k;
            assert(a != i);
            assert(w[a] == s[a]);
        }
    }
    assert forall|k: K| lhs.contains_key(k) implies lhs[k] == rhs[k] by {
        let a = choose|a: int| 0 <= a < w.len() && key(#[trigger] w[a]) == k;
        if a != i {
            assert(w[a] == s[a]);
        }
    }
    assert(lhs =~= rhs);
}

/// The records of `s` whose key satisfies `q`.
pub open spec fn key_satisfies<A, K>(key: spec_fn(A) -> K, q: spec_fn(K) -> bool) -> spec_fn(A) -> bool {
    |a: A| q(key(a))
}

/// The entries of `m` whose key satisfies `q`.
pub open spec fn restrict_keys<K, V>(m: Map<K, V>, q: spec_fn(K) -> bool) -> Map<K, V> {
    Map::new(|k: K| m.contains_key(k) && q(k), |k: K| m[k])
}

/// Keeping the records whose key satisfies `q` keeps the keys distinct
/// and keeps exactly those entries of the map.
pub proof fn lemma_keyed_filter<A, K, V>(s: Seq<A>, key: spec_fn(A) -> K, val: spec_fn(A) -> V, q: spec_fn(K) -> bool)
    requires
        keys_distinct(s, key),
    ensures
        keys_distinct(s.filter(key_satisfies(key, q)), key),
        keyed(s.filter(key_satisfies(key, q)), key, val) == restrict_keys(keyed(s, key, val), q),
    decreases s.len(),
{
    let p = key_satisfies(key, q);
    reveal_with_fuel(Seq::filter, 1);
    if s.len() == 0 {
        assert(s.filter(p) =~= Seq::<A>::empty());
        assert(restrict_keys(keyed(s, key, val), q) =~= Map::<K, V>::empty());
    } else {
        let w = s.drop_last();
        let x = s.last();
        assert forall|a: int, b: int| 0 <= a < w.len() && 0 <= b < w.len() && a != b implies key(#[trigger] w[a]) != key(#[trigger] w[b]) by {
            assert(w[a] == s[a]);
            assert(w[b] == s[b]);
        }
        lemma_keyed_filter(w, key, val, q);
        lemma_keyed(w, key, val);
        assert(!keyed(w, key, val).contains_key(key(x))) by {
            if keyed(w, key, val).contains_key(key(x)) {
                let i = choose|i: int| 0 <= i < w.len() && key(#[trigger] w[i]) == key(x);
                assert(w[i] == s[i]);
                assert(x == s[s.len() - 1]);
            }
        }
        let fw = w.filter(p);
        if p(x) {
            assert(s.filter(p) == fw.push(x));
            lemma_keyed_push(fw, key, val, x);
            assert(keyed(s.filter(p), key, val) =~= restrict_keys(keyed(s, key, val), q));
        } else {
            assert(s.filter(p) == fw);
            assert(keyed(s.filter(p), key, val) =~= restrict_keys(keyed(s, key, val), q));
        }
    }
}

/// A record itself.
pub open spec fn itself<A>() -> spec_fn(A) -> A {
    |a: A| a
}

/// Each value of `m`, passed through `f`.
pub open spec fn map_through<K, V>(m: Map<K, V>, f: spec_fn(V) -> V) -> Map<K, V> {
    Map::new(|k: K| m.contains_key(k), |k: K| f(m[k]))
}

/// Passing each record through a function that keeps its key passes each
/// value of the map through it.
pub proof fn lemma_keyed_map<A, K>(s: Seq<A>, key: spec_fn(A) -> K, f: spec_fn(A) -> A)
    requires
        keys_distinct(s, key),
        forall|a: A| #[trigger] key(f(a)) == key(a),
    ensures
        keys_distinct(s.map_values(f), key),
        keyed(s.map_values(f), key, itself()) == map_through(keyed(s, key, itself()), f),
    decreases s.len(),
{
    let t = s.map_values(f);
    assert forall|a: int, b: int| 0 <= a < t.len() && 0 <= b < t.len() && a != b implies key(#[trigger] t[a]) != key(#[trigger] t[b]) by {
        assert(key(t[a]) == key(s[a]));
        assert(key(t[b]) == key(s[b]));
    }
    let id = itself::<A>();
    if s.len() == 0 {
        assert(keyed(t, key, id) =~= map_through(keyed(s, key, id), f));
    } else {
        let w = s.drop_last();
        assert forall|a: int, b: int| 0 <= a < w.len() && 0 <= b < w.len() && a != b implies key(#[trigger] w[a]) != key(#[trigger] w[b]) by {
            assert(w[a] == s[a]);
            assert(w[b] == s[b]);
        }
        lemma_keyed_map(w, key, f);
        assert(t.drop_last() =~= w.map_values(f));
        assert(keyed(t, key, id) =~= map_through(keyed(s, key, id), f));
    }
}

} // verus!
