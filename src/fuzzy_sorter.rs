//! Ranking of applications against a query: fuzzy relevance first, the usage
//! signal on ties, the order of the input after that; candidates at or below
//! a relevance floor are dropped, and the result is cut to a bound.

use crate::application::Application;
use crate::recency::{lemma_recency_transitive, lemma_recency_trichotomy, UsageRecency};
use fuzzy_matcher::skim::SkimMatcherV2;
use fuzzy_matcher::FuzzyMatcher;
use vstd::prelude::*;

verus! {

/// A candidate is relevant only when its match score is strictly above this.
pub const MINIMUM_MATCH_SCORE: i64 = 19;

/// The most results a search returns.
pub const SEARCH_RESULT_LIMIT: usize = 6;

/// The score that the skim fuzzy matcher, in its default configuration, gives
/// `choice` against `pattern`; `None` when the pattern does not match.
pub uninterp spec fn skim_score(choice: Seq<char>, pattern: Seq<char>) -> Option<i64>;

/// Relies on fuzzy-matcher's `SkimMatcherV2::fuzzy_match` on a matcher built by
/// `SkimMatcherV2::default()`: the score depends on the two strings alone, and
/// an empty pattern scores `Some(0)`.
#[verifier::external_body]
fn skim_fuzzy_match(choice: &str, pattern: &str) -> (r: Option<i64>)
    ensures
        r == skim_score(choice@, pattern@),
        pattern@.len() == 0 ==> r == Some(0i64),
{
    SkimMatcherV2::default().fuzzy_match(choice, pattern)
}

/// A match score for comparison: no match counts as zero.
pub open spec fn score_value(s: Option<i64>) -> i64 {
    match s {
        Some(v) => v,
        None => 0,
    }
}

/// The comparable scores of a list of match results.
pub open spec fn score_values(scores: Seq<Option<i64>>) -> Seq<i64> {
    scores.map_values(|s: Option<i64>| score_value(s))
}

/// The scores of the names of `apps` against `query`.
pub open spec fn name_scores(apps: Seq<Application>, query: Seq<char>) -> Seq<i64> {
    apps.map_values(|a: Application| score_value(skim_score(a.name@, query)))
}

/// The usage signals of `apps`, in order.
pub open spec fn recencies(apps: Seq<Application>) -> Seq<UsageRecency> {
    apps.map_values(|a: Application| a.usage_recency_score)
}

/// Candidate `i` is ranked before candidate `j`: a higher score, or an equal
/// score and a higher usage signal, or both equal and an earlier position.
pub open spec fn ranks_before(scores: Seq<i64>, rec: Seq<UsageRecency>, i: int, j: int) -> bool {
    scores[i] > scores[j] || (scores[i] == scores[j] && (rec[i].exceeds(rec[j]) || (rec[i].ties(
        rec[j],
    ) && i < j)))
}

/// `order` lists exactly the candidates scoring above the floor, each once,
/// best first.
pub open spec fn is_ranking(scores: Seq<i64>, rec: Seq<UsageRecency>, order: Seq<usize>) -> bool {
    &&& scores.len() == rec.len()
    &&& forall|k: int|
        0 <= k < order.len() ==> order[k] < scores.len() && scores[order[k] as int]
            > MINIMUM_MATCH_SCORE
    &&& forall|i: int|
        0 <= i < scores.len() && scores[i] > MINIMUM_MATCH_SCORE ==> order.contains(i as usize)
    &&& forall|a: int, b: int|
        0 <= a < b < order.len() ==> ranks_before(scores, rec, order[a] as int, order[b] as int)
}

/// `out` is the ranking of `apps` under `scores`, cut to its first `limit`
/// entries.
pub open spec fn is_ranked_result(
    apps: Seq<Application>,
    scores: Seq<i64>,
    out: Seq<Application>,
    limit: int,
) -> bool {
    exists|order: Seq<usize>|
        is_ranking(scores, recencies(apps), order) && is_cut_ranking(apps, order, out, limit)
}

/// `out` holds the applications that `order` lists, up to `limit` of them.
pub open spec fn is_cut_ranking(
    apps: Seq<Application>,
    order: Seq<usize>,
    out: Seq<Application>,
    limit: int,
) -> bool {
    &&& out.len() == (if limit < order.len() { limit } else { order.len() as int })
    &&& forall|k: int| 0 <= k < out.len() ==> out[k] == apps[order[k] as int]
}

proof fn lemma_ranks_before_order(scores: Seq<i64>, rec: Seq<UsageRecency>, i: int, j: int, k: int)
    requires
        0 <= i < scores.len(),
        0 <= j < scores.len(),
        0 <= k < scores.len(),
        scores.len() == rec.len(),
    ensures
        !ranks_before(scores, rec, i, i),
        i != j ==> ranks_before(scores, rec, i, j) || ranks_before(scores, rec, j, i),
        !(ranks_before(scores, rec, i, j) && ranks_before(scores, rec, j, i)),
        ranks_before(scores, rec, i, j) && ranks_before(scores, rec, j, k) ==> ranks_before(
            scores,
            rec,
            i,
            k,
        ),
{
    lemma_recency_trichotomy(rec[i], rec[j]);
    lemma_recency_trichotomy(rec[j], rec[k]);
    lemma_recency_trichotomy(rec[i], rec[k]);
    lemma_recency_trichotomy(rec[i], rec[i]);
    lemma_recency_transitive(rec[i], rec[j], rec[k]);
}

/// Two rankings of the same candidates under the same scores are equal.
proof fn lemma_sorted_unique(
    scores: Seq<i64>,
    rec: Seq<UsageRecency>,
    r1: Seq<usize>,
    r2: Seq<usize>,
)
    requires
        scores.len() == rec.len(),
        forall|k: int| 0 <= k < r1.len() ==> r1[k] < scores.len(),
        forall|k: int| 0 <= k < r2.len() ==> r2[k] < scores.len(),
        forall|x: usize| r1.contains(x) <==> r2.contains(x),
        forall|a: int, b: int|
            0 <= a < b < r1.len() ==> ranks_before(scores, rec, r1[a] as int, r1[b] as int),
        forall|a: int, b: int|
            0 <= a < b < r2.len() ==> ranks_before(scores, rec, r2[a] as int, r2[b] as int),
    ensures
        r1 == r2,
    decreases r1.len(),
{
    if r1.len() == 0 {
        if r2.len() > 0 {
            assert(r2.contains(r2[0]));
        }
        assert(r1 =~= r2);
    } else {
        assert(r1.contains(r1[0]));
        assert(r2.len() > 0);
        assert(r2.contains(r2[0]));
        if r1[0] != r2[0] {
            let p = choose|p: int| 0 <= p < r2.len() && r2[p] == r1[0];
            let q = choose|q: int| 0 <= q < r1.len() && r1[q] == r2[0];
            assert(p > 0 && q > 0);
            assert(ranks_before(scores, rec, r2[0] as int, r1[0] as int));
            assert(ranks_before(scores, rec, r1[0] as int, r2[0] as int));
            lemma_ranks_before_order(scores, rec, r1[0] as int, r2[0] as int, r1[0] as int);
        }
        let t1 = r1.drop_first();
        let t2 = r2.drop_first();
        assert forall|x: usize| t1.contains(x) <==> t2.contains(x) by {
            if t1.contains(x) {
                let k = choose|k: int| 0 <= k < t1.len() && t1[k] == x;
                assert(r1[k + 1] == x);
                if x == r1[0] {
                    lemma_ranks_before_order(scores, rec, x as int, x as int, x as int);
                    assert(ranks_before(scores, rec, r1[0] as int, r1[k + 1] as int));
                }
                assert(r1.contains(x));
                let m = choose|m: int| 0 <= m < r2.len() && r2[m] == x;
                assert(m != 0);
                assert(t2[m - 1] == x);
            }
            if t2.contains(x) {
                let k = choose|k: int| 0 <= k < t2.len() && t2[k] == x;
                assert(r2[k + 1] == x);
                if x == r2[0] {
                    lemma_ranks_before_order(scores, rec, x as int, x as int, x as int);
                    assert(ranks_before(scores, rec, r2[0] as int, r2[k + 1] as int));
                }
                assert(r2.contains(x));
                let m = choose|m: int| 0 <= m < r1.len() && r1[m] == x;
                assert(m != 0);
                assert(t1[m - 1] == x);
            }
        }
        assert forall|a: int, b: int| 0 <= a < b < t1.len() implies ranks_before(
            scores,
            rec,
            t1[a] as int,
            t1[b] as int,
        ) by {
            assert(t1[a] == r1[a + 1] && t1[b] == r1[b + 1]);
        }
        assert forall|a: int, b: int| 0 <= a < b < t2.len() implies ranks_before(
            scores,
            rec,
            t2[a] as int,
            t2[b] as int,
        ) by {
            assert(t2[a] == r2[a + 1] && t2[b] == r2[b + 1]);
        }
        lemma_sorted_unique(scores, rec, t1, t2);
        assert(r1 =~= seq![r1[0]] + t1);
        assert(r2 =~= seq![r2[0]] + t2);
    }
}

/// A ranking is determined by the scores and usage signals: two rankings of
/// the same candidates are equal.
pub proof fn lemma_ranking_unique(
    scores: Seq<i64>,
    rec: Seq<UsageRecency>,
    r1: Seq<usize>,
    r2: Seq<usize>,
)
    requires
        is_ranking(scores, rec, r1),
        is_ranking(scores, rec, r2),
    ensures
        r1 == r2,
{
    assert forall|x: usize| r1.contains(x) <==> r2.contains(x) by {
        if r1.contains(x) {
            let k = choose|k: int| 0 <= k < r1.len() && r1[k] == x;
            assert(scores[x as int] > MINIMUM_MATCH_SCORE);
        }
        if r2.contains(x) {
            let k = choose|k: int| 0 <= k < r2.len() && r2[k] == x;
            assert(scores[x as int] > MINIMUM_MATCH_SCORE);
        }
    }
    lemma_sorted_unique(scores, rec, r1, r2);
}

/// Ranking is deterministic: for fixed candidates, scores and bound, any two
/// results that meet the ranking's definition are the same list.
pub proof fn lemma_ranked_result_deterministic(
    apps: Seq<Application>,
    scores: Seq<i64>,
    limit: int,
    out1: Seq<Application>,
    out2: Seq<Application>,
)
    requires
        is_ranked_result(apps, scores, out1, limit),
        is_ranked_result(apps, scores, out2, limit),
    ensures
        out1 == out2,
{
    let o1 = choose|o: Seq<usize>|
        is_ranking(scores, recencies(apps), o) && is_cut_ranking(apps, o, out1, limit);
    let o2 = choose|o: Seq<usize>|
        is_ranking(scores, recencies(apps), o) && is_cut_ranking(apps, o, out2, limit);
    lemma_ranking_unique(scores, recencies(apps), o1, o2);
    assert(out1 =~= out2);
}

/// Among candidates of equal match score, the one with the higher usage signal
/// comes first.
pub proof fn lemma_tie_broken_by_recency(
    scores: Seq<i64>,
    rec: Seq<UsageRecency>,
    order: Seq<usize>,
    a: int,
    b: int,
)
    requires
        is_ranking(scores, rec, order),
        0 <= a < order.len(),
        0 <= b < order.len(),
        scores[order[a] as int] == scores[order[b] as int],
        rec[order[a] as int].exceeds(rec[order[b] as int]),
    ensures
        a < b,
{
    let i = order[a] as int;
    let j = order[b] as int;
    lemma_ranks_before_order(scores, rec, i, j, i);
    if b < a {
        assert(ranks_before(scores, rec, j, i));
    } else if a == b {
        assert(rec[i].exceeds(rec[i]));
    }
}

/// Among candidates of different match score, the higher one comes first.
pub proof fn lemma_higher_score_first(
    scores: Seq<i64>,
    rec: Seq<UsageRecency>,
    order: Seq<usize>,
    a: int,
    b: int,
)
    requires
        is_ranking(scores, rec, order),
        0 <= a < order.len(),
        0 <= b < order.len(),
        scores[order[a] as int] > scores[order[b] as int],
    ensures
        a < b,
{
    if b < a {
        assert(ranks_before(scores, rec, order[b] as int, order[a] as int));
    }
}

fn match_value(s: Option<i64>) -> (r: i64)
    ensures
        r == score_value(s),
{
    match s {
        Some(v) => v,
        None => 0,
    }
}

fn comes_before(scores: &Vec<Option<i64>>, apps: &Vec<Application>, i: usize, j: usize) -> (r:
    bool)
    requires
        scores.len() == apps.len(),
        i < apps.len(),
        j < apps.len(),
    ensures
        r == ranks_before(score_values(scores@), recencies(apps@), i as int, j as int),
{
    let si = match_value(scores[i]);
    let sj = match_value(scores[j]);
    let ri = &apps[i].usage_recency_score;
    let rj = &apps[j].usage_recency_score;
    si > sj || (si == sj && (ri.is_higher_than(rj) || (ri.is_same_as(rj) && i < j)))
}

/// The positions of the candidates that score above the floor, best first.
fn rank_order(apps: &Vec<Application>, scores: &Vec<Option<i64>>) -> (r: Vec<usize>)
    requires
        apps.len() == scores.len(),
    ensures
        is_ranking(score_values(scores@), recencies(apps@), r@),
{
    let ghost s = score_values(scores@);
    let ghost rec = recencies(apps@);
    let n = apps.len();
    let mut order: Vec<usize> = Vec::new();
    let mut i: usize = 0;
    while i < n
        invariant
            n == apps.len(),
            n == scores.len(),
            s == score_values(scores@),
            rec == recencies(apps@),
            s.len() == n,
            rec.len() == n,
            i <= n,
            forall|k: int|
                0 <= k < order.len() ==> order[k] < i && s[order[k] as int] > MINIMUM_MATCH_SCORE,
            forall|j: int|
                0 <= j < i && s[j] > MINIMUM_MATCH_SCORE ==> order@.contains(j as usize),
            forall|a: int, b: int|
                0 <= a < b < order.len() ==> ranks_before(s, rec, order[a] as int, order[b] as int),
        decreases n - i,
    {
        if match_value(scores[i]) > MINIMUM_MATCH_SCORE {
            let mut p: usize = 0;
            while p < order.len()
                invariant
                    n == apps.len(),
                    n == scores.len(),
                    s == score_values(scores@),
                    rec == recencies(apps@),
                    i < n,
                    p <= order.len(),
                    forall|k: int| 0 <= k < order.len() ==> order[k] < i,
                    forall|q: int| 0 <= q < p ==> !ranks_before(s, rec, i as int, order[q] as int),
                ensures
                    p <= order.len(),
                    forall|q: int| 0 <= q < p ==> !ranks_before(s, rec, i as int, order[q] as int),
                    p < order.len() ==> ranks_before(s, rec, i as int, order[p as int] as int),
                decreases order.len() - p,
            {
                if comes_before(scores, apps, i, order[p]) {
                    break;
                }
                p = p + 1;
            }
            let ghost old_order = order@;
            proof {
                assert forall|q: int| 0 <= q < p implies ranks_before(
                    s,
                    rec,
                    old_order[q] as int,
                    i as int,
                ) by {
                    lemma_ranks_before_order(s, rec, i as int, old_order[q] as int, i as int);
                }
                if p < old_order.len() {
                    assert forall|q: int| p <= q < old_order.len() implies ranks_before(
                        s,
                        rec,
                        i as int,
                        old_order[q] as int,
                    ) by {
                        if q > p {
                            lemma_ranks_before_order(
                                s,
                                rec,
                                i as int,
                                old_order[p as int] as int,
                                old_order[q] as int,
                            );
                        }
                    }
                }
            }
            order.insert(p, i);
            proof {
                let new_order = order@;
                assert(new_order == old_order.insert(p as int, i));
                assert forall|a: int, b: int| 0 <= a < b < new_order.len() implies ranks_before(
                    s,
                    rec,
                    new_order[a] as int,
                    new_order[b] as int,
                ) by {
                    if b < p {
                        assert(new_order[a] == old_order[a] && new_order[b] == old_order[b]);
                    } else if b == p {
                        assert(new_order[a] == old_order[a]);
                    } else if a < p {
                        assert(new_order[a] == old_order[a] && new_order[b] == old_order[b - 1]);
                    } else if a == p {
                        assert(new_order[b] == old_order[b - 1]);
                    } else {
                        assert(new_order[a] == old_order[a - 1] && new_order[b] == old_order[b
                            - 1]);
                    }
                }
                assert forall|j: int|
                    0 <= j < i + 1 && s[j] > MINIMUM_MATCH_SCORE implies new_order.contains(
                    j as usize,
                ) by {
                    if j == i {
                        assert(new_order[p as int] == i);
                    } else {
                        assert(old_order.contains(j as usize));
                        let k = choose|k: int| 0 <= k < old_order.len() && old_order[k] == j;
                        if k < p {
                            assert(new_order[k] == j);
                        } else {
                            assert(new_order[k + 1] == j);
                        }
                    }
                }
            }
        }
        i = i + 1;
    }
    order
}

/// Ranks `applications` by the match scores `scores` (one for each, in the
/// same order) and keeps the first `limit` of the ranking.
pub fn rank_scored(applications: &Vec<Application>, scores: &Vec<Option<i64>>, limit: usize) -> (r:
    Vec<Application>)
    requires
        applications.len() == scores.len(),
    ensures
        is_ranked_result(applications@, score_values(scores@), r@, limit as int),
{
    let order = rank_order(applications, scores);
    let count = if limit < order.len() {
        limit
    } else {
        order.len()
    };
    let mut out: Vec<Application> = Vec::new();
    let mut k: usize = 0;
    while k < count
        invariant
            count <= order.len(),
            forall|m: int| 0 <= m < order.len() ==> order[m] < applications.len(),
            k <= count,
            out.len() == k,
            forall|m: int| 0 <= m < k ==> out[m] == applications@[order[m] as int],
        decreases count - k,
    {
        out.push(applications[order[k]].duplicate());
        k = k + 1;
    }
    proof {
        assert(is_ranking(score_values(scores@), recencies(applications@), order@));
        assert(is_cut_ranking(applications@, order@, out@, limit as int));
    }
    out
}

/// Fuzzy search over application names.
#[derive(Debug)]
pub struct FuzzySorter {}

impl FuzzySorter {
    pub fn new() -> (r: FuzzySorter) {
        FuzzySorter {}
    }

    /// The match scores of the names of `applications` against `query`.
    pub fn name_scores(&self, query: &str, applications: &Vec<Application>) -> (r: Vec<Option<i64>>)
        ensures
            r.len() == applications.len(),
            score_values(r@) == name_scores(applications@, query@),
            query@.len() == 0 ==> forall|k: int| 0 <= k < r.len() ==> r[k] == Some(0i64),
    {
        let mut scores: Vec<Option<i64>> = Vec::new();
        let mut k: usize = 0;
        while k < applications.len()
            invariant
                k <= applications.len(),
                scores.len() == k,
                forall|m: int|
                    0 <= m < k ==> scores[m] == skim_score(applications@[m].name@, query@),
                query@.len() == 0 ==> forall|m: int| 0 <= m < k ==> scores[m] == Some(0i64),
            decreases applications.len() - k,
        {
            scores.push(skim_fuzzy_match(applications[k].name.as_str(), query));
            k = k + 1;
        }
        assert(score_values(scores@) =~= name_scores(applications@, query@));
        scores
    }

    /// Ranks `applications` against `query`, keeping every candidate whose
    /// name scores above the floor. An empty query yields nothing.
    pub fn sort_with_filter(&self, query: &str, applications: Vec<Application>) -> (r: Vec<
        Application,
    >)
        ensures
            is_ranked_result(
                applications@,
                name_scores(applications@, query@),
                r@,
                applications.len() as int,
            ),
            query@.len() == 0 ==> r.len() == 0,
    {
        self.search(query, &applications, applications.len())
    }

    /// Ranks `applications` against `query` and keeps the first `limit`.
    pub fn search(&self, query: &str, applications: &Vec<Application>, limit: usize) -> (r: Vec<
        Application,
    >)
        ensures
            is_ranked_result(applications@, name_scores(applications@, query@), r@, limit as int),
            r.len() <= limit,
            query@.len() == 0 ==> r.len() == 0,
    {
        let scores = self.name_scores(query, applications);
        let out = rank_scored(applications, &scores, limit);
        proof {
            let s = score_values(scores@);
            let o = choose|o: Seq<usize>|
                is_ranking(s, recencies(applications@), o) && is_cut_ranking(
                    applications@,
                    o,
                    out@,
                    limit as int,
                );
            if query@.len() == 0 && o.len() > 0 {
                assert(scores@[o[0] as int] == Some(0i64));
            }
        }
        out
    }
}

} // verus!
