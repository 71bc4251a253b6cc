//! The snapshot pipeline: classify every raw row, keep what the active
//! filters pass, and sort stably by the active key.
//!
//! `view_spec` is the whole pipeline as one mathematical function of
//! the raw enumeration and the view settings; `build_view` computes
//! exactly that sequence. The pipeline is pure: the same enumeration
//! and settings always give the same view.

use crate::classify::{is_game_name, is_game_process};
use crate::record::{rec_lt_of, ProcessInfo, RawProcess, SortMode};
use crate::sort::{
    le_of, lemma_filter_empty, lemma_filter_push, lemma_sort_by_stable_multiset,
    lemma_sort_by_stable_props, sort_by_stable, sort_records, tie_with,
};
use crate::text::{contains_bytes_ci, contains_ci};
use vstd::prelude::*;
use vstd::relations::sorted_by;

verus! {

/// One raw row after classification: the same data plus its tag.
pub open spec fn classify_record(rp: RawProcess) -> ProcessInfo {
    ProcessInfo {
        pid: rp.pid,
        name: rp.name,
        cpu_centi: rp.cpu_centi,
        memory: rp.memory,
        is_game: is_game_name(rp.name@),
    }
}

/// The whole enumeration after classification, in enumeration order.
pub open spec fn classified(raw: Seq<RawProcess>) -> Seq<ProcessInfo> {
    Seq::new(raw.len(), |i: int| classify_record(raw[i]))
}

/// The filter step: a record stays when it is game-tagged (or the
/// games-only filter is off) and its name contains the search query
/// (or the query is empty), without regard to ASCII case.
pub open spec fn passes_filter(r: ProcessInfo, games_only: bool, query: Seq<u8>) -> bool {
    (!games_only || r.is_game) && (query.len() == 0 || contains_ci(r.name@, query))
}

/// The combined filter as a predicate value.
pub open spec fn filter_of(games_only: bool, query: Seq<u8>) -> spec_fn(ProcessInfo) -> bool {
    |r: ProcessInfo| passes_filter(r, games_only, query)
}

/// The games-only filter taken by itself.
pub open spec fn flagged_pred() -> spec_fn(ProcessInfo) -> bool {
    |r: ProcessInfo| r.is_game
}

/// The search filter taken by itself.
pub open spec fn search_pred(query: Seq<u8>) -> spec_fn(ProcessInfo) -> bool {
    |r: ProcessInfo| query.len() == 0 || contains_ci(r.name@, query)
}

/// The view one refresh presents: classify, filter, sort stably.
pub open spec fn view_spec(
    raw: Seq<RawProcess>,
    games_only: bool,
    query: Seq<u8>,
    sk: SortMode,
) -> Seq<ProcessInfo> {
    sort_by_stable(rec_lt_of(sk), classified(raw).filter(filter_of(games_only, query)))
}

/// Build the view of one refresh: classify each raw row, keep what the
/// filters pass, and sort stably by the active key.
pub fn build_view(
    raw: Vec<RawProcess>,
    games_only: bool,
    query: &Vec<u8>,
    sk: SortMode,
) -> (r: Vec<ProcessInfo>)
    ensures
        r@ == view_spec(raw@, games_only, query@, sk),
{
    let ghost rawv = raw@;
    let ghost pred = filter_of(games_only, query@);
    let mut raw = raw;
    let total = raw.len();
    let mut kept: Vec<ProcessInfo> = Vec::new();
    let mut i: usize = 0;
    proof {
        assert(classified(rawv.take(0)) =~= Seq::<ProcessInfo>::empty());
        lemma_filter_empty(pred);
        assert(rawv.skip(0) =~= rawv);
    }
    while raw.len() > 0
        invariant
            rawv.len() == total,
            i + raw@.len() == rawv.len(),
            raw@ == rawv.skip(i as int),
            pred == filter_of(games_only, query@),
            kept@ == classified(rawv.take(i as int)).filter(pred),
        decreases raw@.len(),
    {
        let rp = raw.remove(0);
        proof {
            assert(rp == rawv[i as int]);
            assert(raw@ =~= rawv.skip(i as int + 1));
        }
        let flagged = is_game_process(&rp.name);
        let keep = (!games_only || flagged) && (query.len() == 0 || contains_bytes_ci(
            &rp.name,
            query,
        ));
        let rec = ProcessInfo {
            pid: rp.pid,
            name: rp.name,
            cpu_centi: rp.cpu_centi,
            memory: rp.memory,
            is_game: flagged,
        };
        proof {
            assert(rec == classify_record(rawv[i as int]));
            assert(classified(rawv.take(i as int + 1)) =~= classified(
                rawv.take(i as int),
            ).push(rec));
            lemma_filter_push(classified(rawv.take(i as int)), rec, pred);
            assert(keep == passes_filter(rec, games_only, query@));
        }
        if keep {
            kept.push(rec);
        }
        i += 1;
    }
    proof {
        assert(rawv.take(rawv.len() as int) =~= rawv);
    }
    sort_records(sk, kept)
}

/// Filtering with both filters at once is the same as applying the
/// games-only filter and the search filter one after the other, in
/// either order: composition order does not change the result.
pub proof fn lemma_filter_composition(s: Seq<ProcessInfo>, query: Seq<u8>)
    ensures
        s.filter(filter_of(true, query)) == s.filter(flagged_pred()).filter(search_pred(query)),
        s.filter(filter_of(true, query)) == s.filter(search_pred(query)).filter(flagged_pred()),
{
    lemma_filter_and(s, flagged_pred(), search_pred(query), filter_of(true, query));
    lemma_filter_and(s, search_pred(query), flagged_pred(), filter_of(true, query));
}

/// Filtering by a conjunction is filtering by each conjunct in turn.
proof fn lemma_filter_and<A>(
    s: Seq<A>,
    p1: spec_fn(A) -> bool,
    p2: spec_fn(A) -> bool,
    pboth: spec_fn(A) -> bool,
)
    requires
        forall|y: A| #[trigger] pboth(y) == (p1(y) && p2(y)),
    ensures
        s.filter(pboth) == s.filter(p1).filter(p2),
    decreases s.len(),
{
    reveal(Seq::filter);
    if s.len() > 0 {
        let d = s.drop_last();
        let x = s.last();
        lemma_filter_and(d, p1, p2, pboth);
        if p1(x) {
            lemma_filter_push(d.filter(p1), x, p2);
            assert(s.filter(p1) == d.filter(p1).push(x));
        }
    }
}

/// What the sorted view guarantees, for any enumeration and settings:
/// it is sorted under the active key's order, it is a permutation of
/// what the filters kept, and sorting is stable — for every record,
/// the subsequence of view records whose sort key ties with it equals,
/// in order, the same subsequence of the filtered input. Records with
/// equal keys therefore keep their enumeration order.
pub proof fn lemma_view_sorted_stable(
    raw: Seq<RawProcess>,
    games_only: bool,
    query: Seq<u8>,
    sk: SortMode,
)
    ensures
        ({
            let kept = classified(raw).filter(filter_of(games_only, query));
            let view = view_spec(raw, games_only, query, sk);
            &&& sorted_by(view, le_of(rec_lt_of(sk)))
            &&& view.len() == kept.len()
            &&& view.to_multiset() == kept.to_multiset()
            &&& forall|pivot: ProcessInfo|
                view.filter(#[trigger] tie_with(rec_lt_of(sk), pivot)) == kept.filter(
                    tie_with(rec_lt_of(sk), pivot),
                )
        }),
{
    crate::record::lemma_rec_lt_strict_weak(sk);
    lemma_sort_by_stable_props(
        rec_lt_of(sk),
        classified(raw).filter(filter_of(games_only, query)),
    );
    lemma_sort_by_stable_multiset(
        rec_lt_of(sk),
        classified(raw).filter(filter_of(games_only, query)),
    );
}

} // verus!
