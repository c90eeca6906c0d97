//! Candidates and matches for one fuzzy-recompute cycle, and the predicates
//! the picker's contracts are stated over. A candidate's id equals the
//! bookmark's store position at snapshot time and is valid for that one cycle
//! only; the match engine's score is carried as an order-preserving `u64`
//! encoding chosen by the caller that runs the engine.

use vstd::prelude::*;

verus! {

broadcast use vstd::seq_lib::group_to_multiset_ensures;

/// A transient `(id, text)` pair submitted to the match engine for one
/// recompute cycle; `id` is the bookmark's store position at snapshot time.
pub struct Candidate {
    pub id: usize,
    pub text: String,
}

/// A scored result from the match engine, referencing a candidate id.
/// `positions` are the matched character positions within the candidate text.
pub struct Match {
    pub candidate_id: usize,
    pub score: u64,
    pub positions: Vec<usize>,
}

/// Candidate ids are strictly ascending: the list is sorted by store
/// position, independent of score.
pub open spec fn sorted_by_candidate(ms: Seq<Match>) -> bool {
    forall|i: int, j: int|
        0 <= i < j < ms.len() ==> #[trigger] ms[i].candidate_id < #[trigger] ms[j].candidate_id
}

/// Every match references a store position below `n`.
pub open spec fn ids_below(ms: Seq<Match>, n: int) -> bool {
    forall|i: int| 0 <= i < ms.len() ==> #[trigger] ms[i].candidate_id < n
}

/// No two matches reference the same candidate.
pub open spec fn distinct_ids(ms: Seq<Match>) -> bool {
    forall|i: int, j: int|
        0 <= i < j < ms.len() ==> #[trigger] ms[i].candidate_id != #[trigger] ms[j].candidate_id
}

/// `sel` points at a maximum-scoring match, and at the last one among equal
/// maxima: every later match scores strictly less.
pub open spec fn is_last_best(ms: Seq<Match>, sel: int) -> bool {
    &&& 0 <= sel < ms.len()
    &&& forall|j: int| 0 <= j < ms.len() ==> #[trigger] ms[j].score <= ms[sel].score
    &&& forall|j: int| sel < j < ms.len() ==> #[trigger] ms[j].score < ms[sel].score
}

/// What applying a recompute result leaves as the current match list `out`,
/// given the engine's result `incoming` and the store length `n`: exactly the
/// incoming matches that reference a live store position, sorted ascending by
/// candidate id.
pub open spec fn applied_matches(out: Seq<Match>, incoming: Seq<Match>, n: int) -> bool {
    &&& sorted_by_candidate(out)
    &&& ids_below(out, n)
    &&& forall|m: Match| out.contains(m) <==> incoming.contains(m) && m.candidate_id < n
}

/// Keeps exactly the incoming matches that reference a live store position
/// (`candidate_id < n`) and orders them ascending by candidate id, so that
/// row order tracks store order rather than relevance. Matches referencing
/// out-of-range positions are stale and silently dropped, never an error.
pub fn sort_valid_matches(incoming: Vec<Match>, n: usize) -> (out: Vec<Match>)
    requires
        distinct_ids(incoming@),
    ensures
        applied_matches(out@, incoming@, n as int),
{
    let ghost orig: Seq<Match> = incoming@;
    let mut rest = incoming;
    let mut out: Vec<Match> = Vec::new();
    let mut id: usize = 0;
    while id < n
        invariant
            id <= n,
            distinct_ids(rest@),
            forall|k: int| 0 <= k < rest@.len() ==> #[trigger] rest@[k].candidate_id >= id,
            sorted_by_candidate(out@),
            ids_below(out@, id as int),
            out@.to_multiset().add(rest@.to_multiset()) == orig.to_multiset(),
        decreases n - id,
    {
        let mut j: usize = 0;
        let mut found: bool = false;
        while j < rest.len() && !found
            invariant
                j <= rest@.len(),
                !found ==> forall|k: int| 0 <= k < j ==> #[trigger] rest@[k].candidate_id != id,
                found ==> j < rest@.len() && rest@[j as int].candidate_id == id,
            decreases rest@.len() - j + (if found { 0int } else { 1int }),
        {
            if rest[j].candidate_id == id {
                found = true;
            } else {
                j = j + 1;
            }
        }
        if found {
            let ghost rest_before: Seq<Match> = rest@;
            let m = rest.remove(j);
            proof {
                assert(rest@ =~= rest_before.remove(j as int));
                assert forall|k1: int, k2: int| 0 <= k1 < k2 < rest@.len() implies #[trigger] rest@[k1].candidate_id
                    != #[trigger] rest@[k2].candidate_id by {
                    let o1: int = if k1 < j { k1 } else { k1 + 1 };
                    let o2: int = if k2 < j { k2 } else { k2 + 1 };
                    assert(rest@[k1] == rest_before[o1]);
                    assert(rest@[k2] == rest_before[o2]);
                }
                assert forall|k: int| 0 <= k < rest@.len() implies #[trigger] rest@[k].candidate_id
                    >= id + 1 by {
                    let o: int = if k < j { k } else { k + 1 };
                    assert(rest@[k] == rest_before[o]);
                    assert(rest_before[o].candidate_id >= id);
                    if rest_before[o].candidate_id == id {
                        // only one match carries this id, and it was removed
                        assert(o != j);
                        assert(rest_before[j as int].candidate_id == id);
                        if o < j {
                            assert(rest_before[o].candidate_id != rest_before[j as int].candidate_id);
                        } else {
                            assert(rest_before[j as int].candidate_id != rest_before[o].candidate_id);
                        }
                    }
                }
                assert(rest_before[j as int] == m);
                assert(rest_before.contains(m));
                assert(rest_before.to_multiset().count(m) > 0);
                assert(rest_before.remove(j as int).to_multiset() =~= rest_before.to_multiset().remove(m));
                assert(rest@.to_multiset() =~= rest_before.to_multiset().remove(m));
            }
            let ghost out_before: Seq<Match> = out@;
            out.push(m);
            proof {
                assert(out@ =~= out_before.push(m));
                assert(out@.to_multiset() =~= out_before.to_multiset().insert(m));
                assert(out@.to_multiset().add(rest@.to_multiset()) =~= out_before.to_multiset().add(
                    rest_before.to_multiset(),
                ));
            }
        } else {
            proof {
                assert forall|k: int| 0 <= k < rest@.len() implies #[trigger] rest@[k].candidate_id
                    >= id + 1 by {
                    assert(rest@[k].candidate_id != id);
                }
            }
        }
        id = id + 1;
    }
    proof {
        assert forall|m: Match| out@.contains(m) <==> orig.contains(m) && m.candidate_id
            < n as int by {
            assert(orig.to_multiset().count(m) == out@.to_multiset().count(m) + rest@.to_multiset().count(m));
            if out@.contains(m) {
                let k = choose|k: int| 0 <= k < out@.len() && out@[k] == m;
                assert(out@[k].candidate_id < n as int);
                assert(out@.to_multiset().count(m) > 0);
                assert(orig.to_multiset().count(m) > 0);
            }
            if orig.contains(m) && m.candidate_id < n as int {
                assert(orig.to_multiset().count(m) > 0);
                if rest@.to_multiset().count(m) > 0 {
                    assert(rest@.contains(m));
                    let k = choose|k: int| 0 <= k < rest@.len() && rest@[k] == m;
                    assert(rest@[k].candidate_id >= n as int);
                    assert(false);
                }
                assert(out@.to_multiset().count(m) > 0);
            }
        }
    }
    out
}

/// The index of the best-scoring match: scores are scanned in list order and
/// the running best is replaced on every score greater than or equal to it,
/// so among equal maxima the last one wins.
pub fn select_last_best(ms: &Vec<Match>) -> (sel: usize)
    requires
        ms@.len() > 0,
    ensures
        is_last_best(ms@, sel as int),
{
    let mut best: usize = 0;
    let mut k: usize = 1;
    while k < ms.len()
        invariant
            0 < k <= ms@.len(),
            best < k,
            forall|j: int| 0 <= j < k ==> #[trigger] ms@[j].score <= ms@[best as int].score,
            forall|j: int| best < j < k ==> #[trigger] ms@[j].score < ms@[best as int].score,
        decreases ms@.len() - k,
    {
        if ms[k].score >= ms[best].score {
            best = k;
        }
        k = k + 1;
    }
    best
}


/// Some match in the list references candidate id `id`.
pub open spec fn has_id(ms: Seq<Match>, id: int) -> bool {
    exists|k: int| 0 <= k < ms.len() && (#[trigger] ms[k]).candidate_id == id
}

/// Every store position below `n` is referenced by some match.
pub open spec fn covers_all_ids(ms: Seq<Match>, n: int) -> bool {
    forall|id: int| 0 <= id < n ==> #[trigger] has_id(ms, id)
}

/// With every store position matched — as an empty query matches all
/// candidates — applying the result yields exactly one match per bookmark,
/// listed in store order: match `i` references candidate id `i`.
pub proof fn lemma_full_coverage(out: Seq<Match>, incoming: Seq<Match>, n: int)
    requires
        0 <= n,
        applied_matches(out, incoming, n),
        covers_all_ids(incoming, n),
    ensures
        out.len() == n,
        forall|i: int| 0 <= i < n ==> (#[trigger] out[i]).candidate_id == i,
    decreases n,
{
    if n <= 0 {
        if out.len() > 0 {
            assert(out[0].candidate_id < n);
            assert(false);
        }
    } else {
        assert(has_id(incoming, n - 1));
        let k = choose|k: int|
            0 <= k < incoming.len() && (#[trigger] incoming[k]).candidate_id == n - 1;
        let m = incoming[k];
        assert(incoming.contains(m));
        assert(out.contains(m));
        let j = choose|j: int| 0 <= j < out.len() && out[j] == m;
        let last = out.len() - 1;
        // the match for the highest live id can only sit at the end
        assert(out[last].candidate_id < n);
        if j < last {
            assert(out[j].candidate_id < out[last].candidate_id);
            assert(false);
        }
        assert(j == last);
        assert(out[last].candidate_id == n - 1);
        let prefix = out.drop_last();
        assert forall|p: Match| prefix.contains(p) implies incoming.contains(p) && p.candidate_id
            < n - 1 by {
            let i = choose|i: int| 0 <= i < prefix.len() && prefix[i] == p;
            assert(out[i] == p);
            assert(out.contains(p));
            assert(out[i].candidate_id < out[last].candidate_id);
        }
        assert forall|p: Match| incoming.contains(p) && p.candidate_id < n - 1 implies prefix.contains(
            p,
        ) by {
            assert(out.contains(p));
            let i = choose|i: int| 0 <= i < out.len() && out[i] == p;
            if i == last {
                assert(out[last].candidate_id == n - 1);
                assert(false);
            }
            assert(prefix[i] == p);
            assert(prefix.contains(p));
        }
        assert(applied_matches(prefix, incoming, n - 1));
        lemma_full_coverage(prefix, incoming, n - 1);
        assert forall|i: int| 0 <= i < n implies (#[trigger] out[i]).candidate_id == i by {
            if i < n - 1 {
                assert(prefix[i] == out[i]);
                assert(prefix[i].candidate_id == i);
            }
        }
    }
}

/// Store mutations invalidate outstanding positional ids, so the controller
/// recomputes after every deletion: once that recompute is applied, every
/// candidate id in the current match list references a live position of the
/// shrunken store — all ids are below the new store length.
pub proof fn lemma_applied_ids_live(out: Seq<Match>, incoming: Seq<Match>, n: int)
    requires
        applied_matches(out, incoming, n),
    ensures
        forall|i: int| 0 <= i < out.len() ==> (#[trigger] out[i]).candidate_id < n,
{
}

} // verus!
