//! Ranking of search candidates: keep those at or above a threshold, order
//! them by descending score with earlier candidates first among equals,
//! and cut the list at `k`.

use vstd::prelude::*;

verus! {

/// A candidate of a search: the position of an entry in the index and its
/// similarity to the query.
pub struct Candidate {
    pub index: int,
    pub score: u32,
}

/// `sorted` with `c` put behind every element whose score is at least its
/// own: where `sorted` is in descending order, so is the result, and `c`
/// comes last among its equals.
pub open spec fn insert_ranked(sorted: Seq<Candidate>, c: Candidate) -> Seq<Candidate>
    decreases sorted.len(),
{
    if sorted.len() == 0 {
        seq![c]
    } else if sorted[0].score < c.score {
        seq![c] + sorted
    } else {
        seq![sorted[0]] + insert_ranked(sorted.skip(1), c)
    }
}

/// The candidates among the first `n` scores that reach the threshold, in
/// descending order of score, earlier positions first among equals.
pub open spec fn ranked(scores: Seq<u32>, threshold: u32, n: int) -> Seq<Candidate>
    decreases n,
{
    if n <= 0 {
        Seq::empty()
    } else if scores[n - 1] >= threshold {
        insert_ranked(ranked(scores, threshold, n - 1), Candidate { index: n - 1,
            score: scores[n - 1] })
    } else {
        ranked(scores, threshold, n - 1)
    }
}

/// The first `k` of a list, or all of it where it is shorter.
pub open spec fn top(s: Seq<Candidate>, k: int) -> Seq<Candidate> {
    if k <= 0 {
        Seq::empty()
    } else if s.len() <= k {
        s
    } else {
        s.take(k)
    }
}

/// The result of a search: the best `k` candidates over all scores.
pub open spec fn nearest(scores: Seq<u32>, threshold: u32, k: int) -> Seq<Candidate> {
    top(ranked(scores, threshold, scores.len() as int), k)
}

/// Whether a list is in descending order of score.
pub open spec fn descending(s: Seq<Candidate>) -> bool {
    forall|i: int, j: int| 0 <= i < j < s.len() ==> s[i].score >= s[j].score
}

/// Whether, among equal scores, earlier positions come first.
pub open spec fn stable(s: Seq<Candidate>) -> bool {
    forall|i: int, j: int|
        0 <= i < j < s.len() && s[i].score == s[j].score ==> s[i].index < s[j].index
}

/// An insertion makes the list one longer.
pub proof fn lemma_insert_len(sorted: Seq<Candidate>, c: Candidate)
    ensures
        insert_ranked(sorted, c).len() == sorted.len() + 1,
    decreases sorted.len(),
{
    if sorted.len() > 0 && sorted[0].score >= c.score {
        lemma_insert_len(sorted.skip(1), c);
    }
}

/// Every element of the result of an insertion is the new one or was there.
pub proof fn lemma_insert_members(sorted: Seq<Candidate>, c: Candidate, i: int)
    requires
        0 <= i < insert_ranked(sorted, c).len(),
    ensures
        insert_ranked(sorted, c)[i] == c || exists|j: int|
            0 <= j < sorted.len() && sorted[j] == insert_ranked(sorted, c)[i],
    decreases sorted.len(),
{
    lemma_insert_len(sorted, c);
    if sorted.len() == 0 {
    } else if sorted[0].score < c.score {
        if i > 0 {
            assert(sorted[i - 1] == insert_ranked(sorted, c)[i]);
        }
    } else {
        if i == 0 {
            assert(sorted[0] == insert_ranked(sorted, c)[0]);
        } else {
            let tail = sorted.skip(1);
            lemma_insert_len(tail, c);
            lemma_insert_members(tail, c, i - 1);
            assert(insert_ranked(sorted, c)[i] == insert_ranked(tail, c)[i - 1]);
            if insert_ranked(tail, c)[i - 1] != c {
                let j = choose|j: int|
                    0 <= j < tail.len() && tail[j] == insert_ranked(tail, c)[i - 1];
                assert(sorted[j + 1] == insert_ranked(sorted, c)[i]);
            }
        }
    }
}

/// Insertion keeps a list in descending order, and keeps earlier positions
/// first among equals where the new position is behind all others.
pub proof fn lemma_insert_ordered(sorted: Seq<Candidate>, c: Candidate)
    requires
        descending(sorted),
        stable(sorted),
        forall|j: int| 0 <= j < sorted.len() ==> sorted[j].index < c.index,
    ensures
        descending(insert_ranked(sorted, c)),
        stable(insert_ranked(sorted, c)),
    decreases sorted.len(),
{
    let r = insert_ranked(sorted, c);
    lemma_insert_len(sorted, c);
    if sorted.len() == 0 {
    } else if sorted[0].score < c.score {
        assert forall|i: int, j: int| 0 <= i < j < r.len() implies r[i].score >= r[j].score by {
            if i == 0 {
                assert(r[j] == sorted[j - 1]);
                assert(sorted[0].score >= sorted[j - 1].score || j - 1 == 0);
            } else {
                assert(r[i] == sorted[i - 1] && r[j] == sorted[j - 1]);
            }
        }
        assert forall|i: int, j: int|
            0 <= i < j < r.len() && r[i].score == r[j].score implies r[i].index
            < r[j].index by {
            if i == 0 {
                assert(r[j] == sorted[j - 1]);
                assert(sorted[0].score >= sorted[j - 1].score || j - 1 == 0);
            } else {
                assert(r[i] == sorted[i - 1] && r[j] == sorted[j - 1]);
            }
        }
    } else {
        let tail = sorted.skip(1);
        let rt = insert_ranked(tail, c);
        lemma_insert_len(tail, c);
        assert(descending(tail)) by {
            assert forall|i: int, j: int| 0 <= i < j < tail.len() implies tail[i].score
                >= tail[j].score by {
                assert(tail[i] == sorted[i + 1] && tail[j] == sorted[j + 1]);
            }
        }
        assert(stable(tail)) by {
            assert forall|i: int, j: int|
                0 <= i < j < tail.len() && tail[i].score == tail[j].score implies tail[i].index
                < tail[j].index by {
                assert(tail[i] == sorted[i + 1] && tail[j] == sorted[j + 1]);
            }
        }
        assert forall|j: int| 0 <= j < tail.len() implies tail[j].index < c.index by {
            assert(tail[j] == sorted[j + 1]);
        }
        lemma_insert_ordered(tail, c);
        assert forall|i: int, j: int| 0 <= i < j < r.len() implies r[i].score >= r[j].score by {
            if i == 0 {
                lemma_insert_members(tail, c, j - 1);
                assert(r[j] == rt[j - 1]);
                if rt[j - 1] != c {
                    let m = choose|m: int| 0 <= m < tail.len() && tail[m] == rt[j - 1];
                    assert(tail[m] == sorted[m + 1]);
                }
            } else {
                assert(r[i] == rt[i - 1] && r[j] == rt[j - 1]);
            }
        }
        assert forall|i: int, j: int|
            0 <= i < j < r.len() && r[i].score == r[j].score implies r[i].index
            < r[j].index by {
            if i == 0 {
                lemma_insert_members(tail, c, j - 1);
                assert(r[j] == rt[j - 1]);
                if rt[j - 1] != c {
                    let m = choose|m: int| 0 <= m < tail.len() && tail[m] == rt[j - 1];
                    assert(tail[m] == sorted[m + 1]);
                }
            } else {
                assert(r[i] == rt[i - 1] && r[j] == rt[j - 1]);
            }
        }
    }
}

/// What a ranking holds: no more candidates than scores were looked at,
/// each a position below `n` with its own score, which reaches the
/// threshold; in descending order, earlier positions first among equals.
pub proof fn lemma_ranked(scores: Seq<u32>, threshold: u32, n: int)
    requires
        0 <= n <= scores.len(),
    ensures
        ranked(scores, threshold, n).len() <= n,
        forall|i: int|
            0 <= i < ranked(scores, threshold, n).len() ==> {
                let c = #[trigger] ranked(scores, threshold, n)[i];
                0 <= c.index < n && c.score == scores[c.index] && c.score >= threshold
            },
        descending(ranked(scores, threshold, n)),
        stable(ranked(scores, threshold, n)),
    decreases n,
{
    if n > 0 {
        lemma_ranked(scores, threshold, n - 1);
        let before = ranked(scores, threshold, n - 1);
        if scores[n - 1] >= threshold {
            let c = Candidate { index: n - 1, score: scores[n - 1] };
            let after = insert_ranked(before, c);
            lemma_insert_len(before, c);
            lemma_insert_ordered(before, c);
            assert forall|i: int| 0 <= i < after.len() implies {
                let x = #[trigger] after[i];
                0 <= x.index < n && x.score == scores[x.index] && x.score >= threshold
            } by {
                lemma_insert_members(before, c, i);
            }
        }
    }
}

/// Every position whose score reaches the threshold is in the ranking.
pub proof fn lemma_ranked_complete(scores: Seq<u32>, threshold: u32, n: int, p: int)
    requires
        0 <= p < n <= scores.len(),
        scores[p] >= threshold,
    ensures
        exists|i: int|
            0 <= i < ranked(scores, threshold, n).len() && #[trigger] ranked(
                scores,
                threshold,
                n,
            )[i].index == p,
    decreases n,
{
    let before = ranked(scores, threshold, n - 1);
    let here = ranked(scores, threshold, n);
    if scores[n - 1] >= threshold {
        let c = Candidate { index: n - 1, score: scores[n - 1] };
        lemma_insert_len(before, c);
        if p == n - 1 {
            lemma_insert_holds(before, c);
            let i = choose|i: int|
                0 <= i < insert_ranked(before, c).len() && #[trigger] insert_ranked(before, c)[i]
                    == c;
            assert(here[i].index == p);
        } else {
            lemma_ranked_complete(scores, threshold, n - 1, p);
            let j = choose|j: int| 0 <= j < before.len() && #[trigger] before[j].index == p;
            lemma_insert_keeps(before, c, j);
            let i = choose|i: int|
                0 <= i < insert_ranked(before, c).len() && #[trigger] insert_ranked(before, c)[i]
                    == before[j];
            assert(here[i].index == p);
        }
    } else {
        lemma_ranked_complete(scores, threshold, n - 1, p);
        let i = choose|i: int| 0 <= i < before.len() && #[trigger] before[i].index == p;
        assert(here[i].index == p);
    }
}

/// The result of a search is in descending order of similarity, holds no
/// similarity below the threshold and no more than `k` candidates, and
/// each of its candidates is a stored position with its own similarity.
/// A position that reaches the threshold and is left out has a similarity
/// no greater than any in the result, which then holds `k` candidates.
pub proof fn lemma_search_ordering(scores: Seq<u32>, threshold: u32, k: int)
    requires
        k >= 0,
    ensures
        descending(nearest(scores, threshold, k)),
        stable(nearest(scores, threshold, k)),
        nearest(scores, threshold, k).len() <= k,
        forall|i: int|
            0 <= i < nearest(scores, threshold, k).len() ==> {
                let c = #[trigger] nearest(scores, threshold, k)[i];
                0 <= c.index < scores.len() && c.score == scores[c.index] && c.score >= threshold
            },
        forall|p: int|
            0 <= p < scores.len() && scores[p] >= threshold && !(exists|i: int|
                0 <= i < nearest(scores, threshold, k).len() && #[trigger] nearest(
                    scores,
                    threshold,
                    k,
                )[i].index == p) ==> nearest(scores, threshold, k).len() == k && forall|i: int|
                0 <= i < k ==> (#[trigger] nearest(scores, threshold, k)[i]).score >= scores[p],
{
    let all = ranked(scores, threshold, scores.len() as int);
    let best = nearest(scores, threshold, k);
    lemma_ranked(scores, threshold, scores.len() as int);
    assert forall|i: int| 0 <= i < best.len() implies best[i] == all[i] by {}
    assert forall|p: int|
        0 <= p < scores.len() && scores[p] >= threshold && !(exists|i: int|
            0 <= i < best.len() && #[trigger] best[i].index == p) implies best.len() == k
        && forall|i: int| 0 <= i < k ==> (#[trigger] best[i]).score >= scores[p] by {
        lemma_ranked_complete(scores, threshold, scores.len() as int, p);
        let at = choose|i: int| 0 <= i < all.len() && #[trigger] all[i].index == p;
        if at < best.len() {
            assert(best[at].index == p);
        }
        assert forall|i: int| 0 <= i < k implies (#[trigger] best[i]).score >= scores[p] by {
            assert(best[i] == all[i]);
            assert(all[i].score >= all[at].score);
        }
    }
}

/// The result of an insertion holds the new element.
pub proof fn lemma_insert_holds(sorted: Seq<Candidate>, c: Candidate)
    ensures
        exists|i: int|
            0 <= i < insert_ranked(sorted, c).len() && #[trigger] insert_ranked(sorted, c)[i]
                == c,
    decreases sorted.len(),
{
    lemma_insert_len(sorted, c);
    let r = insert_ranked(sorted, c);
    if sorted.len() == 0 || sorted[0].score < c.score {
        assert(r[0] == c);
    } else {
        let tail = sorted.skip(1);
        lemma_insert_holds(tail, c);
        lemma_insert_len(tail, c);
        let i = choose|i: int|
            0 <= i < insert_ranked(tail, c).len() && #[trigger] insert_ranked(tail, c)[i] == c;
        assert(r[i + 1] == c);
    }
}

/// The result of an insertion holds every element that was there.
pub proof fn lemma_insert_keeps(sorted: Seq<Candidate>, c: Candidate, j: int)
    requires
        0 <= j < sorted.len(),
    ensures
        exists|i: int|
            0 <= i < insert_ranked(sorted, c).len() && #[trigger] insert_ranked(sorted, c)[i]
                == sorted[j],
    decreases sorted.len(),
{
    lemma_insert_len(sorted, c);
    let r = insert_ranked(sorted, c);
    if sorted[0].score < c.score {
        assert(r[j + 1] == sorted[j]);
    } else if j == 0 {
        assert(r[0] == sorted[0]);
    } else {
        let tail = sorted.skip(1);
        lemma_insert_len(tail, c);
        lemma_insert_keeps(tail, c, j - 1);
        let i = choose|i: int|
            0 <= i < insert_ranked(tail, c).len() && #[trigger] insert_ranked(tail, c)[i]
                == tail[j - 1];
        assert(r[i + 1] == sorted[j]);
    }
}

/// Cutting before or after an insertion gives the same first `k`.
pub proof fn lemma_insert_top(sorted: Seq<Candidate>, c: Candidate, k: int)
    requires
        k >= 0,
    ensures
        top(insert_ranked(top(sorted, k), c), k) == top(insert_ranked(sorted, c), k),
    decreases sorted.len(),
{
    lemma_insert_len(sorted, c);
    lemma_insert_len(top(sorted, k), c);
    if k == 0 {
    } else if sorted.len() <= k {
    } else {
        // sorted is longer than k, so top(sorted, k) is its first k elements
        let cut = sorted.take(k);
        if sorted[0].score < c.score {
            assert(cut[0] == sorted[0]);
            assert((seq![c] + cut).take(k) =~= (seq![c] + sorted).take(k));
        } else {
            let tail = sorted.skip(1);
            assert(cut[0] == sorted[0]);
            assert(cut.skip(1) =~= top(tail, k - 1));
            lemma_insert_top(tail, c, k - 1);
            lemma_insert_len(tail, c);
            lemma_insert_len(top(tail, k - 1), c);
            let a = insert_ranked(top(tail, k - 1), c);
            let b = insert_ranked(tail, c);
            assert(top(a, k - 1) == top(b, k - 1));
            if k - 1 == 0 {
                assert((seq![sorted[0]] + a).take(k) =~= (seq![sorted[0]] + b).take(k));
            } else {
                assert(top(a, k - 1) =~= a.take(k - 1));
                assert(top(b, k - 1) =~= b.take(k - 1));
                assert((seq![sorted[0]] + a).take(k) =~= seq![sorted[0]] + a.take(k - 1));
                assert((seq![sorted[0]] + b).take(k) =~= seq![sorted[0]] + b.take(k - 1));
            }
        }
    }
}

} // verus!
