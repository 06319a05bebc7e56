//! Ranking of candidates by score: keep those at or above a threshold, order
//! them by descending score with ties in candidate order, and keep a prefix.
//!
//! Scores are integer keys that order as the similarity scores they stand for.
use vstd::prelude::*;

verus! {

/// The limit that applies when a caller asks for a non-positive one.
pub const DEFAULT_SEARCH_LIMIT: usize = 10;

/// The limit that applies to a text query given a non-positive one.
pub const DEFAULT_QUERY_LIMIT: usize = 50;

/// The requested limit where it is positive, else the default.
pub open spec fn limit_or(limit: i32, default: usize) -> nat {
    if limit > 0 {
        limit as nat
    } else {
        default as nat
    }
}

/// Computes `limit_or`.
pub fn effective_limit(limit: i32, default: usize) -> (r: usize)
    ensures
        r == limit_or(limit, default),
{
    if limit > 0 {
        limit as usize
    } else {
        default
    }
}

/// Candidate `a` ranks strictly before candidate `b`: a higher score, or an
/// equal score and an earlier position.
pub open spec fn ranks_before(scores: Seq<i64>, a: int, b: int) -> bool {
    scores[a] > scores[b] || (scores[a] == scores[b] && a < b)
}

/// Candidate `i` exists and meets the threshold.
pub open spec fn qualifies(scores: Seq<i64>, threshold: i64, i: int) -> bool {
    0 <= i < scores.len() && scores[i] >= threshold
}

/// `r` is the ranking of the candidates with `scores` at `threshold`, cut to
/// `limit`: the first `limit` qualifying candidates in rank order (all of them
/// if fewer qualify).
pub open spec fn is_ranking(scores: Seq<i64>, threshold: i64, limit: nat, r: Seq<usize>) -> bool {
    &&& r.len() <= limit
    &&& forall|k: int| 0 <= k < r.len() ==> qualifies(scores, threshold, #[trigger] r[k] as int)
    &&& forall|k: int, j: int|
        0 <= k < j < r.len() ==> ranks_before(scores, #[trigger] r[k] as int, #[trigger] r[j] as int)
    &&& forall|i: int|
        qualifies(scores, threshold, i) && !r.contains(i as usize) ==> {
            &&& r.len() == limit
            &&& forall|k: int| 0 <= k < r.len() ==> ranks_before(scores, #[trigger] r[k] as int, i)
        }
}

/// Ranks the candidates: the positions of those with a score at or above
/// `threshold`, by descending score, ties in candidate order, at most `limit`.
pub fn rank(scores: &Vec<i64>, threshold: i64, limit: usize) -> (r: Vec<usize>)
    ensures
        is_ranking(scores@, threshold, limit as nat, r@),
{
    let n = scores.len();
    let mut r: Vec<usize> = Vec::new();
    while r.len() < limit
        invariant
            n == scores@.len(),
            r@.len() <= limit,
            forall|k: int| 0 <= k < r@.len() ==> qualifies(scores@, threshold, #[trigger] r@[k] as int),
            forall|k: int, j: int|
                0 <= k < j < r@.len() ==> ranks_before(
                    scores@,
                    #[trigger] r@[k] as int,
                    #[trigger] r@[j] as int,
                ),
            forall|i: int|
                qualifies(scores@, threshold, i) && !r@.contains(i as usize) ==> r@.len() > 0
                    ==> ranks_before(scores@, r@.last() as int, i),
        decreases limit - r@.len(),
    {
        // the best qualifying candidate that ranks after the last one taken
        let mut best: Option<usize> = None;
        let mut i: usize = 0;
        while i < n
            invariant
                n == scores@.len(),
                i <= n,
                r@.len() <= limit,
                forall|k: int| 0 <= k < r@.len() ==> qualifies(scores@, threshold, #[trigger] r@[k] as int),
                forall|k: int, j: int|
                    0 <= k < j < r@.len() ==> ranks_before(
                        scores@,
                        #[trigger] r@[k] as int,
                        #[trigger] r@[j] as int,
                    ),
                forall|c: int|
                    qualifies(scores@, threshold, c) && !r@.contains(c as usize) ==> r@.len() > 0
                        ==> ranks_before(scores@, r@.last() as int, c),
                match best {
                    Some(b) => {
                        &&& b < i
                        &&& qualifies(scores@, threshold, b as int)
                        &&& !r@.contains(b)
                        &&& forall|c: int|
                            0 <= c < i && qualifies(scores@, threshold, c) && !r@.contains(c as usize)
                                && c != b ==> ranks_before(scores@, b as int, c)
                    },
                    None => forall|c: int|
                        0 <= c < i ==> !(qualifies(scores@, threshold, c) && !r@.contains(c as usize)),
                },
            decreases n - i,
        {
            let fresh = scores[i] >= threshold && (r.len() == 0 || ranks_after(scores, r[r.len() - 1], i));
            if fresh {
                proof {
                    if r@.contains(i) {
                        let k = choose|k: int| 0 <= k < r@.len() && r@[k] == i;
                        if k < r@.len() - 1 {
                            assert(ranks_before(scores@, r@[k] as int, r@[r@.len() - 1] as int));
                        }
                    }
                }
                match best {
                    Some(b) => {
                        if scores[i] > scores[b] {
                            best = Some(i);
                        }
                    },
                    None => {
                        best = Some(i);
                    },
                }
            } else {
                proof {
                    if qualifies(scores@, threshold, i as int) && !r@.contains(i) {
                        assert(r@.len() > 0 ==> ranks_before(scores@, r@.last() as int, i as int));
                    }
                }
            }
            i += 1;
        }
        match best {
            Some(b) => {
                let ghost old_r = r@;
                r.push(b);
                proof {
                    assert(r@[old_r.len() as int] == b);
                    assert forall|c: int|
                        qualifies(scores@, threshold, c) && !r@.contains(c as usize) implies
                        ranks_before(scores@, r@.last() as int, c) by {
                        assert(!old_r.contains(c as usize)) by {
                            if old_r.contains(c as usize) {
                                let k = choose|k: int| 0 <= k < old_r.len() && old_r[k] == c as usize;
                                assert(r@[k] == c as usize);
                            }
                        }
                        assert(c != b);
                    }
                    assert forall|k: int, j: int| 0 <= k < j < r@.len() implies ranks_before(
                        scores@,
                        #[trigger] r@[k] as int,
                        #[trigger] r@[j] as int,
                    ) by {
                        if j == r@.len() - 1 {
                            assert(!old_r.contains(b));
                            if k < old_r.len() - 1 {
                                assert(ranks_before(scores@, old_r[k] as int, old_r.last() as int));
                            }
                        }
                    }
                }
            },
            None => {
                return r;
            },
        }
    }
    r
}

/// A ranking holds only candidates at or above the threshold, in
/// non-increasing score order, and no more than the limit.
pub proof fn lemma_ranking_sorted(scores: Seq<i64>, threshold: i64, limit: nat, r: Seq<usize>)
    requires
        is_ranking(scores, threshold, limit, r),
    ensures
        r.len() <= limit,
        forall|k: int| 0 <= k < r.len() ==> scores[#[trigger] r[k] as int] >= threshold,
        forall|k: int, j: int|
            0 <= k < j < r.len() ==> scores[#[trigger] r[k] as int] >= scores[#[trigger] r[j] as int],
{
    assert forall|k: int| 0 <= k < r.len() implies scores[#[trigger] r[k] as int] >= threshold by {
        assert(qualifies(scores, threshold, r[k] as int));
    }
    assert forall|k: int, j: int| 0 <= k < j < r.len() implies scores[#[trigger] r[k] as int]
        >= scores[#[trigger] r[j] as int] by {
        assert(ranks_before(scores, r[k] as int, r[j] as int));
    }
}

/// Tells whether candidate `b` ranks strictly after candidate `a`.
fn ranks_after(scores: &Vec<i64>, a: usize, b: usize) -> (r: bool)
    requires
        a < scores@.len(),
        b < scores@.len(),
    ensures
        r == ranks_before(scores@, a as int, b as int),
{
    scores[a] > scores[b] || (scores[a] == scores[b] && a < b)
}

} // verus!
