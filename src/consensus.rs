use vstd::prelude::*;
use crate::model::{Data, Estimator};
use crate::sampling::{index_of, sample_indices};
use crate::selection::{best_score, best_trial, lemma_best_is_first_maximum, Best};

verus! {

/// Why a run was refused before any trial.
#[derive(Debug, Clone, Copy, PartialEq, Eq, Structural)]
pub enum RansacError {
    /// The dataset holds no point.
    EmptyDataset,
    /// The minimal sample is larger than the dataset.
    SampleLargerThanDataset,
}

/// The outcome of a run: the kept hypothesis and how the trials scored.
pub struct Fit<H> {
    /// The parameters of the first trial that reached the best score; `None` when no
    /// trial scored above zero.
    pub params: Option<H>,
    /// The best inlier count over all trials (zero when no trial found an inlier).
    pub score: usize,
    /// The trial whose parameters were kept.
    pub trial: Option<usize>,
    /// Each trial's inlier count, in the order the trials ran.
    pub scores: Vec<usize>,
    /// Each trial's fitted hypothesis, in the order the trials ran.
    pub hypotheses: Ghost<Seq<H>>,
}

/// The number of `points` that lie within the inlier threshold of `hypothesis`.
pub open spec fn inlier_count<T, H, E: Estimator<T, H>>(estimator: E, hypothesis: H, points: Seq<T>) -> nat
    decreases points.len(),
{
    if points.len() == 0 {
        0
    } else {
        inlier_count(estimator, hypothesis, points.drop_last()) + if estimator.inlier(
            hypothesis,
            points.last(),
        ) {
            1nat
        } else {
            0nat
        }
    }
}

/// The sample that a row of draws selects among `n` points.
pub open spec fn sample_of(row: Seq<u64>, n: nat) -> Seq<usize> {
    Seq::new(row.len(), |j: int| index_of(row[j], n) as usize)
}

proof fn lemma_inlier_count_bounded<T, H, E: Estimator<T, H>>(estimator: E, hypothesis: H, points: Seq<T>)
    ensures
        inlier_count(estimator, hypothesis, points) <= points.len(),
    decreases points.len(),
{
    if points.len() > 0 {
        lemma_inlier_count_bounded(estimator, hypothesis, points.drop_last());
    }
}

/// Scoring is a function of the inlier rule, the hypothesis and the points alone:
/// two estimators that agree on which points are inliers of `hypothesis` give it
/// the same count, and so scoring one hypothesis twice gives one count.
pub proof fn lemma_scoring_idempotent<T, H, E: Estimator<T, H>>(a: E, b: E, hypothesis: H, points: Seq<T>)
    requires
        forall|x: T| a.inlier(hypothesis, x) == b.inlier(hypothesis, x),
    ensures
        inlier_count(a, hypothesis, points) == inlier_count(b, hypothesis, points),
    decreases points.len(),
{
    if points.len() > 0 {
        lemma_scoring_idempotent(a, b, hypothesis, points.drop_last());
        assert(a.inlier(hypothesis, points.last()) == b.inlier(hypothesis, points.last()));
    }
}

/// A hypothesis that any trial fitted is never lost: the best score of the run is
/// at least its inlier count, and the kept hypothesis has at least as many inliers.
/// With `scores` and `hypotheses` taken from a run of `ransac`, a trial whose sample
/// recovers a known model guarantees a result that explains as many points.
pub proof fn lemma_fitted_hypothesis_not_lost<T, H, E: Estimator<T, H>>(
    estimator: E,
    points: Seq<T>,
    scores: Seq<usize>,
    hypotheses: Seq<H>,
    i: int,
)
    requires
        scores.len() == hypotheses.len(),
        0 <= i < scores.len(),
        forall|k: int|
            0 <= k < scores.len() ==> #[trigger] scores[k] == inlier_count(estimator, hypotheses[k], points),
    ensures
        best_score(scores) >= inlier_count(estimator, hypotheses[i], points),
        best_trial(scores) matches Some(t) ==> inlier_count(estimator, hypotheses[t], points)
            >= inlier_count(estimator, hypotheses[i], points),
{
    lemma_best_is_first_maximum(scores);
    assert(scores[i] == inlier_count(estimator, hypotheses[i], points));
    if let Some(t) = best_trial(scores) {
        assert(scores[t] == inlier_count(estimator, hypotheses[t], points));
    }
}

/// Counts the points of the whole dataset that lie within the inlier threshold of
/// the current fit.
pub fn score<T, H, E: Estimator<T, H>>(estimator: &E, dataset: &Data<T>) -> (r: usize)
    ensures
        r == inlier_count(*estimator, estimator.current(), dataset@),
        r <= dataset@.len(),
{
    let points = dataset.points();
    let mut count: usize = 0;
    let mut i: usize = 0;
    while i < points.len()
        invariant
            i <= points@.len(),
            count == inlier_count(*estimator, estimator.current(), points@.take(i as int)),
            count <= i,
        decreases points@.len() - i,
    {
        proof {
            assert(points@.take(i + 1).drop_last() =~= points@.take(i as int));
            lemma_inlier_count_bounded(*estimator, estimator.current(), points@.take(i as int));
        }
        if estimator.is_inlier(&points[i]) {
            count = count + 1;
        }
        i = i + 1;
    }
    proof {
        assert(points@.take(i as int) =~= points@);
    }
    count
}

/// Runs one trial per row of `draws`: the row's draws pick `sample_size` indices,
/// the estimator is fitted to those points and scored against the whole dataset,
/// and the hypothesis is kept when its score beats every earlier one.
pub fn ransac<T, H, E: Estimator<T, H>>(
    estimator: &mut E,
    dataset: &Data<T>,
    sample_size: usize,
    draws: &Vec<Vec<u64>>,
) -> (r: Result<Fit<H>, RansacError>)
    requires
        forall|i: int| 0 <= i < draws@.len() ==> #[trigger] draws@[i]@.len() == sample_size,
    ensures
        (r == Err::<Fit<H>, RansacError>(RansacError::EmptyDataset)) <==> dataset@.len() == 0,
        (r == Err::<Fit<H>, RansacError>(RansacError::SampleLargerThanDataset)) <==> (dataset@.len()
            > 0 && sample_size > dataset@.len()),
        r is Ok <==> (dataset@.len() > 0 && sample_size <= dataset@.len()),
        r matches Ok(fit) ==> {
            &&& fit.scores@.len() == draws@.len()
            &&& fit.hypotheses@.len() == draws@.len()
            &&& forall|i: int|
                0 <= i < draws@.len() ==> #[trigger] fit.hypotheses@[i] == old(estimator).fit(
                    dataset@,
                    sample_of(draws@[i]@, dataset@.len()),
                )
            &&& forall|i: int|
                0 <= i < draws@.len() ==> #[trigger] fit.scores@[i] == inlier_count(
                    *old(estimator),
                    fit.hypotheses@[i],
                    dataset@,
                )
            &&& forall|i: int| 0 <= i < fit.scores@.len() ==> #[trigger] fit.scores@[i] <= dataset@.len()
            &&& fit.score == best_score(fit.scores@)
            &&& fit.trial == match best_trial(fit.scores@) {
                Some(t) => Some(t as usize),
                None => None,
            }
            &&& (fit.trial is Some <==> fit.score > 0)
            &&& fit.trial matches Some(t) ==> fit.params == Some(fit.hypotheses@[t as int])
            &&& fit.trial is None ==> fit.params is None
        },
{
    let n = dataset.n_datapoints();
    if n == 0 {
        return Err(RansacError::EmptyDataset);
    }
    if sample_size > n {
        return Err(RansacError::SampleLargerThanDataset);
    }
    let ghost start = *estimator;
    let ghost mut hypotheses: Seq<H> = Seq::empty();
    let mut best: Best<H> = Best::new();
    let mut trial: Option<usize> = None;
    let mut scores: Vec<usize> = Vec::new();
    let mut i: usize = 0;
    while i < draws.len()
        invariant
            n == dataset@.len(),
            n > 0,
            i <= draws@.len(),
            scores@.len() == i,
            hypotheses.len() == i,
            forall|p: Seq<T>, s: Seq<usize>| #[trigger] estimator.fit(p, s) == start.fit(p, s),
            forall|h: H, x: T| #[trigger] estimator.inlier(h, x) == start.inlier(h, x),
            forall|k: int|
                0 <= k < i ==> #[trigger] hypotheses[k] == start.fit(
                    dataset@,
                    sample_of(draws@[k]@, n as nat),
                ),
            forall|k: int| 0 <= k < i ==> #[trigger] scores@[k] == inlier_count(start, hypotheses[k], dataset@),
            forall|k: int| 0 <= k < i ==> #[trigger] scores@[k] <= n,
            best.score_spec() == best_score(scores@),
            trial == match best_trial(scores@) {
                Some(t) => Some(t as usize),
                None => None,
            },
            trial matches Some(t) ==> best.params_spec() == Some(hypotheses[t as int]),
            trial is None ==> best.params_spec() is None,
        decreases draws@.len() - i,
    {
        let sample = sample_indices(&draws[i], n);
        proof {
            assert(sample@ =~= sample_of(draws@[i as int]@, n as nat));
        }
        let params = estimator.fit_hypothesis(dataset.points(), &sample);
        let ghost h = params;
        let s = score(estimator, dataset);
        proof {
            lemma_scoring_idempotent(*estimator, start, h, dataset@);
        }
        let ghost prev = scores@;
        proof {
            lemma_best_is_first_maximum(prev);
        }
        if best.offer(s, params) {
            trial = Some(i);
        }
        scores.push(s);
        proof {
            hypotheses = hypotheses.push(h);
            assert(scores@.drop_last() =~= prev);
        }
        i = i + 1;
    }
    proof {
        lemma_best_is_first_maximum(scores@);
    }
    let score = best.score();
    Ok(Fit { params: best.into_params(), score, trial, scores, hypotheses: Ghost(hypotheses) })
}

} // verus!
