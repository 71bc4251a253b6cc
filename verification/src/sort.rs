//! Stable sorting for the snapshot view.
//!
//! `sort_by_stable` is the mathematical description: an insertion sort
//! that places each element after everything that does not sort
//! strictly above it, so records with equal keys keep their input
//! order. `sort_records` is the executable sort, proved to return
//! exactly that sequence; `lemma_sort_by_stable_props` establishes
//! sortedness and stability (each tie class of the output is the tie
//! class of the input, unchanged).

use crate::record::{rec_lt, rec_lt_of, rec_before, ProcessInfo, SortMode};
use vstd::multiset::Multiset;
use vstd::prelude::*;
use vstd::relations::sorted_by;

verus! {

/// A strict weak order: irreflexive, transitive, and with transitive
/// incomparability. Every sort key's order has these properties, and
/// they are what stable sorting needs of a comparator.
pub open spec fn strict_weak<A>(lt: spec_fn(A, A) -> bool) -> bool {
    &&& forall|a: A| !(#[trigger] lt(a, a))
    &&& forall|a: A, b: A, c: A| #[trigger] lt(a, b) && #[trigger] lt(b, c) ==> lt(a, c)
    &&& forall|a: A, b: A, c: A| !(#[trigger] lt(a, b)) && !(#[trigger] lt(b, c)) ==> !lt(a, c)
}

/// The non-strict companion of `lt`: `a` does not sort strictly after `b`.
pub open spec fn le_of<A>(lt: spec_fn(A, A) -> bool) -> spec_fn(A, A) -> bool {
    |a: A, b: A| !lt(b, a)
}

/// Membership test for the tie class of `pivot`: elements the order
/// cannot tell apart from `pivot`.
pub open spec fn tie_with<A>(lt: spec_fn(A, A) -> bool, pivot: A) -> spec_fn(A) -> bool {
    |y: A| !lt(y, pivot) && !lt(pivot, y)
}

/// Insert `x` into `s` directly before the first element that sorts
/// strictly above `x`; after every element it ties with.
pub open spec fn insert_by<A>(lt: spec_fn(A, A) -> bool, x: A, s: Seq<A>) -> Seq<A>
    decreases s.len(),
{
    if s.len() == 0 {
        seq![x]
    } else if lt(x, s[0]) {
        seq![x] + s
    } else {
        seq![s[0]] + insert_by(lt, x, s.drop_first())
    }
}

/// The offset at which `insert_by` places `x`.
pub open spec fn insert_pos<A>(lt: spec_fn(A, A) -> bool, x: A, s: Seq<A>) -> int
    decreases s.len(),
{
    if s.len() == 0 {
        0
    } else if lt(x, s[0]) {
        0
    } else {
        1 + insert_pos(lt, x, s.drop_first())
    }
}

/// Stable insertion sort of `s` under `lt`: each element, in input
/// order, is inserted after its ties.
pub open spec fn sort_by_stable<A>(lt: spec_fn(A, A) -> bool, s: Seq<A>) -> Seq<A>
    decreases s.len(),
{
    if s.len() == 0 {
        s
    } else {
        insert_by(lt, s.last(), sort_by_stable(lt, s.drop_last()))
    }
}

/// `insert_by` splits `s` at `insert_pos`: nothing before the position
/// sorts strictly above `x`, and the element at the position (if any)
/// does.
pub proof fn lemma_insert_shape<A>(lt: spec_fn(A, A) -> bool, x: A, s: Seq<A>)
    ensures
        ({
            let p = insert_pos(lt, x, s);
            &&& 0 <= p <= s.len()
            &&& insert_by(lt, x, s) == s.take(p) + seq![x] + s.skip(p)
            &&& forall|k: int| 0 <= k < p ==> !lt(x, s[k])
            &&& p < s.len() ==> lt(x, s[p])
        }),
    decreases s.len(),
{
    let p = insert_pos(lt, x, s);
    if s.len() == 0 {
        assert(insert_by(lt, x, s) =~= s.take(0) + seq![x] + s.skip(0));
    } else if lt(x, s[0]) {
        assert(insert_by(lt, x, s) =~= s.take(0) + seq![x] + s.skip(0));
    } else {
        let d = s.drop_first();
        lemma_insert_shape(lt, x, d);
        let q = insert_pos(lt, x, d);
        assert(s.take(p) =~= seq![s[0]] + d.take(q));
        assert(s.skip(p) =~= d.skip(q));
        assert(insert_by(lt, x, s) =~= s.take(p) + seq![x] + s.skip(p));
        assert forall|k: int| 0 <= k < p implies !lt(x, s[k]) by {
            if k > 0 {
                assert(s[k] == d[k - 1]);
            }
        }
        if p < s.len() {
            assert(s[p] == d[q]);
        }
    }
}

/// A filter keeping nothing of what `s` holds gives the empty sequence.
proof fn lemma_filter_none<A>(s: Seq<A>, pred: spec_fn(A) -> bool)
    requires
        forall|i: int| 0 <= i < s.len() ==> !pred(s[i]),
    ensures
        s.filter(pred) == Seq::<A>::empty(),
    decreases s.len(),
{
    reveal(Seq::filter);
    if s.len() == 0 {
        assert(s.filter(pred) =~= Seq::<A>::empty());
    } else {
        lemma_filter_none(s.drop_last(), pred);
        assert(!pred(s.last()));
        assert(s.filter(pred) == s.drop_last().filter(pred));
    }
}

/// Filtering a one-element sequence.
proof fn lemma_filter_single<A>(x: A, pred: spec_fn(A) -> bool)
    ensures
        pred(x) ==> seq![x].filter(pred) == seq![x],
        !pred(x) ==> seq![x].filter(pred) == Seq::<A>::empty(),
{
    reveal(Seq::filter);
    let s = seq![x];
    assert(s.drop_last() =~= Seq::<A>::empty());
    assert(s.drop_last().filter(pred) =~= Seq::<A>::empty());
    assert(s.last() == x);
    if pred(x) {
        assert(s.filter(pred) =~= seq![x]);
    }
}

/// Filtering the empty sequence gives the empty sequence.
pub proof fn lemma_filter_empty<A>(pred: spec_fn(A) -> bool)
    ensures
        Seq::<A>::empty().filter(pred) == Seq::<A>::empty(),
{
    reveal(Seq::filter);
}

/// How a filter grows when one element is appended.
pub proof fn lemma_filter_push<A>(s: Seq<A>, x: A, pred: spec_fn(A) -> bool)
    ensures
        pred(x) ==> s.push(x).filter(pred) == s.filter(pred).push(x),
        !pred(x) ==> s.push(x).filter(pred) == s.filter(pred),
{
    reveal(Seq::filter);
    assert(s.push(x).drop_last() =~= s);
    assert(s.push(x).last() == x);
}

/// What stable sorting guarantees: the result has the same length, is
/// sorted under the key's non-strict order, and for every pivot the
/// subsequence of elements tied with it — kept in order — is exactly
/// the same before and after sorting. The last clause is sort
/// stability: elements with equal keys keep their relative input order.
pub proof fn lemma_sort_by_stable_props<A>(lt: spec_fn(A, A) -> bool, s: Seq<A>)
    requires
        strict_weak(lt),
    ensures
        sort_by_stable(lt, s).len() == s.len(),
        sorted_by(sort_by_stable(lt, s), le_of(lt)),
        forall|pivot: A|
            sort_by_stable(lt, s).filter(#[trigger] tie_with(lt, pivot)) == s.filter(
                tie_with(lt, pivot),
            ),
    decreases s.len(),
{
    let t = sort_by_stable(lt, s);
    if s.len() == 0 {
    } else {
        let s0 = s.drop_last();
        let x = s.last();
        lemma_sort_by_stable_props(lt, s0);
        let t0 = sort_by_stable(lt, s0);
        lemma_insert_shape(lt, x, t0);
        let p = insert_pos(lt, x, t0);
        let ta = t0.take(p);
        let tb = t0.skip(p);
        assert(t == (ta + seq![x]) + tb);
        assert(ta + tb =~= t0);
        assert(s0 + seq![x] =~= s);
        assert(t.len() == s.len());

        // everything at or after the insertion point sorts strictly above x
        assert forall|k: int| p <= k < t0.len() implies lt(x, t0[k]) by {
            if k > p {
                assert(le_of(lt)(t0[p], t0[k]));
                if !lt(x, t0[k]) {
                    assert(!lt(t0[k], t0[p]));
                    assert(!lt(x, t0[p]));
                    assert(false);
                }
            }
        }

        // sortedness
        assert forall|i: int, j: int| 0 <= i < j < t.len() implies #[trigger] le_of(lt)(
            t[i],
            t[j],
        ) by {
            if j < p {
                assert(t[i] == t0[i] && t[j] == t0[j]);
                assert(le_of(lt)(t0[i], t0[j]));
            } else if j == p {
                assert(t[i] == t0[i] && t[j] == x);
                assert(!lt(x, t0[i]));
            } else if i < p {
                assert(t[i] == t0[i] && t[j] == t0[j - 1]);
                assert(le_of(lt)(t0[i], t0[j - 1]));
            } else if i == p {
                assert(t[i] == x && t[j] == t0[j - 1]);
                assert(lt(x, t0[j - 1]));
                if lt(t0[j - 1], x) {
                    assert(lt(x, x));
                }
            } else {
                assert(t[i] == t0[i - 1] && t[j] == t0[j - 1]);
                assert(le_of(lt)(t0[i - 1], t0[j - 1]));
            }
        }

        // tie classes are preserved in order
        assert forall|pivot: A| t.filter(#[trigger] tie_with(lt, pivot)) == s.filter(
            tie_with(lt, pivot),
        ) by {
            let pred = tie_with(lt, pivot);
            Seq::<A>::filter_distributes_over_add(ta + seq![x], tb, pred);
            Seq::<A>::filter_distributes_over_add(ta, seq![x], pred);
            Seq::<A>::filter_distributes_over_add(ta, tb, pred);
            Seq::<A>::filter_distributes_over_add(s0, seq![x], pred);
            lemma_filter_single(x, pred);
            let fa = ta.filter(pred);
            let fb = tb.filter(pred);
            let fx = seq![x].filter(pred);
            assert(t.filter(pred) == (fa + fx) + fb);
            assert(t0.filter(pred) == fa + fb);
            assert(s.filter(pred) == s0.filter(pred) + fx);
            assert(t0.filter(pred) == s0.filter(pred));
            if pred(x) {
                // nothing past the insertion point ties with the pivot
                assert forall|k: int| 0 <= k < tb.len() implies !pred(tb[k]) by {
                    assert(tb[k] == t0[p + k]);
                    assert(lt(x, t0[p + k]));
                    if pred(tb[k]) {
                        assert(!lt(x, pivot) && !lt(pivot, x));
                        assert(!lt(tb[k], pivot) && !lt(pivot, tb[k]));
                        assert(!lt(x, tb[k]));
                        assert(false);
                    }
                }
                lemma_filter_none(tb, pred);
                assert(fa + fb =~= fa);
                assert((fa + fx) + fb =~= fa + fx);
                assert(t.filter(pred) == s.filter(pred));
            } else {
                assert(fx =~= Seq::<A>::empty());
                assert(fa + fx =~= fa);
                assert((fa + fx) + fb =~= fa + fb);
                assert(s0.filter(pred) + fx =~= s0.filter(pred));
                assert(t.filter(pred) == s.filter(pred));
            }
        }
    }
}

/// Stable sorting permutes: the sorted sequence holds exactly the
/// elements of the input, with their multiplicities.
pub proof fn lemma_sort_by_stable_multiset<A>(lt: spec_fn(A, A) -> bool, s: Seq<A>)
    ensures
        sort_by_stable(lt, s).to_multiset() == s.to_multiset(),
    decreases s.len(),
{
    broadcast use vstd::seq_lib::group_to_multiset_ensures;
    broadcast use vstd::multiset::group_multiset_axioms;

    if s.len() > 0 {
        let s0 = s.drop_last();
        let x = s.last();
        lemma_sort_by_stable_multiset(lt, s0);
        let t0 = sort_by_stable(lt, s0);
        lemma_insert_shape(lt, x, t0);
        let p = insert_pos(lt, x, t0);
        let ta = t0.take(p);
        let tb = t0.skip(p);
        vstd::seq_lib::lemma_multiset_commutative(ta + seq![x], tb);
        vstd::seq_lib::lemma_multiset_commutative(ta, seq![x]);
        vstd::seq_lib::lemma_multiset_commutative(ta, tb);
        assert(ta + tb =~= t0);
        assert(s0.push(x) =~= s);
        assert(seq![x] =~= Seq::<A>::empty().push(x));
        assert(Seq::<A>::empty().to_multiset() =~= Multiset::<A>::empty());
        assert(sort_by_stable(lt, s).to_multiset() =~= s.to_multiset());
    }
}

/// A position with the first-above-`x` property is `insert_pos`.
proof fn lemma_insert_pos_unique<A>(lt: spec_fn(A, A) -> bool, x: A, s: Seq<A>, p: int)
    requires
        0 <= p <= s.len(),
        forall|k: int| 0 <= k < p ==> !lt(x, s[k]),
        p < s.len() ==> lt(x, s[p]),
    ensures
        p == insert_pos(lt, x, s),
    decreases s.len(),
{
    if s.len() == 0 {
    } else if lt(x, s[0]) {
        assert(p == 0);
    } else {
        let d = s.drop_first();
        assert(p >= 1);
        assert forall|k: int| 0 <= k < p - 1 implies !lt(x, d[k]) by {
            assert(d[k] == s[k + 1]);
        }
        if p - 1 < d.len() {
            assert(d[p - 1] == s[p]);
        }
        lemma_insert_pos_unique(lt, x, d, p - 1);
    }
}

/// First offset in `acc` whose record sorts strictly above `x`, or the
/// length when none does.
fn find_insert_pos(sk: SortMode, acc: &Vec<ProcessInfo>, x: &ProcessInfo) -> (p: usize)
    ensures
        p <= acc@.len(),
        forall|k: int| 0 <= k < p ==> !rec_lt(sk, *x, acc@[k]),
        p < acc@.len() ==> rec_lt(sk, *x, acc@[p as int]),
{
    let mut p: usize = 0;
    while p < acc.len()
        invariant
            p <= acc@.len(),
            forall|k: int| 0 <= k < p ==> !rec_lt(sk, *x, acc@[k]),
        decreases acc@.len() - p,
    {
        if rec_before(sk, x, &acc[p]) {
            return p;
        }
        p += 1;
    }
    p
}

/// Insert one record into an already built prefix, exactly as
/// `insert_by` describes.
fn insert_sorted(sk: SortMode, acc: Vec<ProcessInfo>, x: ProcessInfo) -> (r: Vec<ProcessInfo>)
    ensures
        r@ == insert_by(rec_lt_of(sk), x, acc@),
{
    let ghost a0 = acc@;
    let p = find_insert_pos(sk, &acc, &x);
    proof {
        assert forall|k: int| 0 <= k < p implies !rec_lt_of(sk)(x, a0[k]) by {}
        lemma_insert_pos_unique(rec_lt_of(sk), x, a0, p as int);
        lemma_insert_shape(rec_lt_of(sk), x, a0);
    }
    let mut acc = acc;
    acc.insert(p, x);
    proof {
        assert(acc@ =~= a0.take(p as int) + seq![x] + a0.skip(p as int));
    }
    acc
}

/// Sort the view's records by the active sort key; ties keep their
/// input order. Returns exactly the sequence `sort_by_stable`
/// describes.
pub fn sort_records(sk: SortMode, v: Vec<ProcessInfo>) -> (r: Vec<ProcessInfo>)
    ensures
        r@ == sort_by_stable(rec_lt_of(sk), v@),
{
    let ghost orig = v@;
    let mut v = v;
    let total = v.len();
    let mut acc: Vec<ProcessInfo> = Vec::new();
    let mut i: usize = 0;
    proof {
        assert(orig.take(0) =~= Seq::<ProcessInfo>::empty());
        assert(orig.skip(0) =~= orig);
    }
    while v.len() > 0
        invariant
            orig.len() == total,
            i + v@.len() == orig.len(),
            v@ == orig.skip(i as int),
            acc@ == sort_by_stable(rec_lt_of(sk), orig.take(i as int)),
        decreases v@.len(),
    {
        let ghost v0 = v@;
        let x = v.remove(0);
        proof {
            assert(x == orig[i as int]);
            assert(v@ =~= orig.skip(i as int + 1));
        }
        acc = insert_sorted(sk, acc, x);
        proof {
            assert(orig.take(i as int + 1).drop_last() =~= orig.take(i as int));
            assert(orig.take(i as int + 1).last() == orig[i as int]);
        }
        i += 1;
    }
    proof {
        assert(orig.take(orig.len() as int) =~= orig);
    }
    acc
}

} // verus!
