//! What a stable sort by an integer key promises, and the step that
//! insertion keeps it.

use vstd::prelude::*;

verus! {

/// `s` is in non-decreasing order of `key`.
pub open spec fn sorted_by<A>(s: Seq<A>, key: spec_fn(A) -> int) -> bool {
    forall|i: int, j: int| 0 <= i < j < s.len() ==> key(#[trigger] s[i]) <= key(#[trigger] s[j])
}

/// The elements whose key is `k`.
pub open spec fn key_is<A>(key: spec_fn(A) -> int, k: int) -> spec_fn(A) -> bool {
    |a: A| key(a) == k
}

/// For every key, `r` holds the elements of `s` with that key, in the
/// same order: `r` is a stable reordering of `s`.
pub open spec fn same_runs<A>(r: Seq<A>, s: Seq<A>, key: spec_fn(A) -> int) -> bool {
    forall|k: int| #[trigger] r.filter(key_is(key, k)) == s.filter(key_is(key, k))
}

proof fn lemma_filter_single<A>(x: A, p: spec_fn(A) -> bool)
    ensures
        seq![x].filter(p) == (if p(x) { seq![x] } else { Seq::<A>::empty() }),
{
    reveal_with_fuel(Seq::filter, 2);
    assert(seq![x].drop_last() =~= Seq::<A>::empty());
}

/// Inserting `x` at a position after which no element shares its key
/// extends a stable reordering of `s` to one of `s` followed by `x`.
pub proof fn lemma_insert_keeps_runs<A>(r: Seq<A>, s: Seq<A>, x: A, p: int, key: spec_fn(A) -> int)
    requires
        same_runs(r, s, key),
        0 <= p <= r.len(),
        forall|i: int| p <= i < r.len() ==> key(#[trigger] r[i]) != key(x),
    ensures
        same_runs(r.insert(p, x), s.push(x), key),
{
    let a = r.subrange(0, p);
    let b = r.subrange(p, r.len() as int);
    assert(r.insert(p, x) =~= a + seq![x] + b);
    assert(r =~= a + b);
    assert forall|k: int| #[trigger] r.insert(p, x).filter(key_is(key, k)) == s.push(x).filter(key_is(key, k)) by {
        let pk = key_is(key, k);
        Seq::filter_distributes_over_add(a + seq![x], b, pk);
        Seq::filter_distributes_over_add(a, seq![x], pk);
        Seq::filter_distributes_over_add(a, b, pk);
        lemma_filter_single(x, pk);
        assert(s.push(x).drop_last() =~= s);
        reveal_with_fuel(Seq::filter, 1);
        assert(r.filter(pk) == s.filter(pk));
        if key(x) == k {
            assert forall|i: int| 0 <= i < b.len() implies !pk(#[trigger] b[i]) by {
                assert(b[i] == r[p + i]);
            }
            b.lemma_all_neg_filter_empty(pk);
            assert(b.filter(pk) =~= Seq::<A>::empty());
            assert(r.insert(p, x).filter(pk) =~= s.filter(pk).push(x));
        } else {
            assert(r.insert(p, x).filter(pk) =~= s.filter(pk));
        }
    }
}

} // verus!
