//! Facts about sequences that the store's proofs share.

use vstd::prelude::*;

verus! {

/// The views of a sequence of values, element by element.
pub open spec fn views<T: View>(s: Seq<T>) -> Seq<T::V> {
    s.map_values(|x: T| x@)
}

/// Filtering one more element either appends it or changes nothing.
pub proof fn lemma_filter_step<A>(s: Seq<A>, pred: spec_fn(A) -> bool, i: int)
    requires
        0 <= i < s.len(),
    ensures
        s.take(i + 1).filter(pred) == if pred(s[i]) {
            s.take(i).filter(pred).push(s[i])
        } else {
            s.take(i).filter(pred)
        },
{
    reveal(Seq::filter);
    assert(s.take(i + 1).drop_last() =~= s.take(i));
    assert(s.take(i + 1).last() == s[i]);
}

/// Every element of a filtered sequence comes from the sequence and meets
/// the predicate, and every element of the sequence that meets it is kept.
pub proof fn lemma_filter_members<A>(s: Seq<A>, pred: spec_fn(A) -> bool)
    ensures
        forall|x: A| #[trigger] s.filter(pred).contains(x) <==> (s.contains(x) && pred(x)),
    decreases s.len(),
{
    reveal(Seq::filter);
    if s.len() > 0 {
        let rest = s.drop_last();
        let kept = s.filter(pred);
        let rest_kept = rest.filter(pred);
        lemma_filter_members(rest, pred);
        assert(kept == if pred(s.last()) {
            rest_kept.push(s.last())
        } else {
            rest_kept
        });
        assert forall|x: A| #[trigger] kept.contains(x) <==> (s.contains(x) && pred(x)) by {
            if kept.contains(x) {
                let k = choose|k: int| 0 <= k < kept.len() && kept[k] == x;
                if k < rest_kept.len() {
                    assert(rest_kept[k] == x);
                    assert(rest_kept.contains(x));
                    assert(rest.contains(x));
                    let m = choose|m: int| 0 <= m < rest.len() && rest[m] == x;
                    assert(s[m] == x);
                } else {
                    assert(s[s.len() - 1] == x);
                }
            }
            if s.contains(x) && pred(x) {
                let m = choose|m: int| 0 <= m < s.len() && s[m] == x;
                if m == s.len() - 1 {
                    assert(kept[rest_kept.len() as int] == x);
                } else {
                    assert(rest[m] == x);
                    assert(rest.contains(x));
                    assert(rest_kept.contains(x));
                    let k = choose|k: int| 0 <= k < rest_kept.len() && rest_kept[k] == x;
                    assert(kept[k] == x);
                }
            }
        }
    }
}

/// Whether no two elements of the sequence share a key.
pub open spec fn distinct_by<A, K>(s: Seq<A>, key: spec_fn(A) -> K) -> bool {
    forall|i: int, j: int| 0 <= i < j < s.len() ==> key(#[trigger] s[i]) != key(#[trigger] s[j])
}

/// Filtering keeps keys distinct.
pub proof fn lemma_filter_distinct<A, K>(s: Seq<A>, pred: spec_fn(A) -> bool, key: spec_fn(A) -> K)
    requires
        distinct_by(s, key),
    ensures
        distinct_by(s.filter(pred), key),
    decreases s.len(),
{
    reveal(Seq::filter);
    if s.len() > 0 {
        let rest = s.drop_last();
        let kept = s.filter(pred);
        let rest_kept = rest.filter(pred);
        assert(distinct_by(rest, key)) by {
            assert forall|i: int, j: int| 0 <= i < j < rest.len() implies key(#[trigger] rest[i])
                != key(#[trigger] rest[j]) by {
                assert(rest[i] == s[i] && rest[j] == s[j]);
            }
        }
        lemma_filter_distinct(rest, pred, key);
        lemma_filter_members(rest, pred);
        assert forall|i: int, j: int| 0 <= i < j < kept.len() implies key(#[trigger] kept[i])
            != key(#[trigger] kept[j]) by {
            if j < rest_kept.len() {
                assert(kept[i] == rest_kept[i] && kept[j] == rest_kept[j]);
            } else {
                assert(kept[j] == s[s.len() - 1]);
                assert(kept[i] == rest_kept[i]);
                assert(rest_kept.contains(rest_kept[i]));
                assert(rest.contains(kept[i]));
                let m = choose|m: int| 0 <= m < rest.len() && rest[m] == kept[i];
                assert(s[m] == kept[i]);
            }
        }
    }
}

/// A predicate and its negation split a sequence: every element goes to
/// exactly one side, as often as it occurs.
pub proof fn lemma_filter_splits<A>(s: Seq<A>, pred: spec_fn(A) -> bool, neg: spec_fn(A) -> bool)
    requires
        forall|x: A| #[trigger] neg(x) == !pred(x),
    ensures
        s.to_multiset() =~= s.filter(pred).to_multiset().add(s.filter(neg).to_multiset()),
        s.len() == s.filter(pred).len() + s.filter(neg).len(),
    decreases s.len(),
{
    reveal(Seq::filter);
    if s.len() == 0 {
        assert(s.filter(pred) =~= Seq::empty());
        assert(s.filter(neg) =~= Seq::empty());
        s.to_multiset_ensures();
        Seq::<A>::empty().to_multiset_ensures();
        assert(s =~= Seq::empty());
    } else {
        let rest = s.drop_last();
        lemma_filter_splits(rest, pred, neg);
        assert(s =~= rest.push(s.last()));
        rest.to_multiset_ensures();
        rest.filter(pred).to_multiset_ensures();
        rest.filter(neg).to_multiset_ensures();
        assert(neg(s.last()) == !pred(s.last()));
    }
}

} // verus!
