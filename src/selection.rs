use vstd::prelude::*;

verus! {

/// The best score over a sequence of per-trial scores; zero when there are none.
pub open spec fn best_score(scores: Seq<usize>) -> nat
    decreases scores.len(),
{
    if scores.len() == 0 {
        0
    } else {
        let prev = best_score(scores.drop_last());
        if scores.last() > prev {
            scores.last() as nat
        } else {
            prev
        }
    }
}

/// The trial whose hypothesis is kept: the first one that reaches the best score,
/// provided that score beats the initial zero; `None` when no trial scored above zero.
pub open spec fn best_trial(scores: Seq<usize>) -> Option<int>
    decreases scores.len(),
{
    if scores.len() == 0 {
        None
    } else if scores.last() > best_score(scores.drop_last()) {
        Some(scores.len() - 1)
    } else {
        best_trial(scores.drop_last())
    }
}

/// The best score bounds every trial's score, and the kept trial is the first
/// that reaches it.
pub proof fn lemma_best_is_first_maximum(scores: Seq<usize>)
    ensures
        forall|k: int| 0 <= k < scores.len() ==> scores[k] <= best_score(scores),
        best_score(scores) == 0 <==> best_trial(scores) is None,
        best_trial(scores) matches Some(t) ==> {
            &&& 0 <= t < scores.len()
            &&& scores[t] == best_score(scores)
            &&& forall|k: int| 0 <= k < t ==> scores[k] < best_score(scores)
        },
    decreases scores.len(),
{
    if scores.len() > 0 {
        let prev = scores.drop_last();
        lemma_best_is_first_maximum(prev);
        assert forall|k: int| 0 <= k < scores.len() implies scores[k] <= best_score(scores) by {
            if k < scores.len() - 1 {
                assert(scores[k] == prev[k]);
            }
        }
        if !(scores.last() > best_score(prev)) {
            if let Some(t) = best_trial(prev) {
                assert(scores[t] == prev[t]);
                assert forall|k: int| 0 <= k < t implies scores[k] < best_score(scores) by {
                    assert(scores[k] == prev[k]);
                }
            }
        } else {
            assert forall|k: int| 0 <= k < scores.len() - 1 implies scores[k] < best_score(scores) by {
                assert(scores[k] == prev[k]);
            }
        }
    }
}

/// Along any sequence of trial scores, the best score seen so far never decreases:
/// after `i` trials it is at most what it is after `j >= i` trials.
pub proof fn lemma_best_score_non_decreasing(scores: Seq<usize>, i: int, j: int)
    requires
        0 <= i <= j <= scores.len(),
    ensures
        best_score(scores.take(i)) <= best_score(scores.take(j)),
    decreases j - i,
{
    if i < j {
        lemma_best_score_non_decreasing(scores, i, j - 1);
        assert(scores.take(j).drop_last() =~= scores.take(j - 1));
    }
}

/// The best candidate seen so far: its score and the hypothesis that earned it.
pub struct Best<H> {
    score: usize,
    params: Option<H>,
}

impl<H> Best<H> {
    pub closed spec fn score_spec(&self) -> nat {
        self.score as nat
    }

    pub closed spec fn params_spec(&self) -> Option<H> {
        self.params
    }

    /// No candidate yet: score zero.
    pub fn new() -> (r: Self)
        ensures
            r.score_spec() == 0,
            r.params_spec() is None,
    {
        Best { score: 0, params: None }
    }

    pub fn score(&self) -> (r: usize)
        ensures
            r == self.score_spec(),
    {
        self.score
    }

    /// Offers a trial's hypothesis with its score. It replaces the incumbent only on a
    /// strictly higher score, so that ties keep the earlier candidate. Returns whether
    /// it replaced it.
    pub fn offer(&mut self, score: usize, params: H) -> (replaced: bool)
        ensures
            replaced == (score > old(self).score_spec()),
            replaced ==> final(self).score_spec() == score && final(self).params_spec() == Some(params),
            !replaced ==> *final(self) == *old(self),
    {
        if score > self.score {
            self.score = score;
            self.params = Some(params);
            true
        } else {
            false
        }
    }

    /// Hands out the kept hypothesis, if any trial beat the initial zero score.
    pub fn into_params(self) -> (r: Option<H>)
        ensures
            r == self.params_spec(),
    {
        self.params
    }
}

} // verus!
