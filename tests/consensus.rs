use ransac::consensus::{ransac, score, RansacError};
use ransac::model::{Data, Estimator};
use ransac::sampling::{sample_index, sample_indices};
use ransac::selection::Best;
use ransac::trials::trial_count;

/// A one-dimensional constant model: the hypothesis is the mean of the sampled values.
struct Constant {
    value: f64,
    threshold: f64,
}

impl Estimator<f64, f64> for Constant {
    fn fit_hypothesis(&mut self, points: &Vec<f64>, sample: &Vec<usize>) -> f64 {
        let mut sum = 0.0;
        for &k in sample.iter() {
            sum += points[k];
        }
        self.value = sum / sample.len() as f64;
        self.value
    }

    fn is_inlier(&self, point: &f64) -> bool {
        (point - self.value).abs() < self.threshold
    }
}

fn constant(threshold: f64) -> Constant {
    Constant { value: 0.0, threshold }
}

/// A draw that selects index `k` among `n` points.
fn draw_for(k: usize, n: usize) -> u64 {
    ((((k as u128) << 64) + (1u128 << 63)) / n as u128) as u64
}

fn formula_trials(confidence: f64, outlier_ratio: f64, s: i32) -> u64 {
    ((1.0 - confidence).log10() / (1.0 - (1.0 - outlier_ratio).powi(s)).log10()).ceil() as u64
}

fn trials_for(confidence: f64, outlier_ratio: f64, s: i32) -> u64 {
    trial_count(outlier_ratio == 0.0, formula_trials(confidence, outlier_ratio, s), 10_000)
}

#[test]
fn trial_count_passes_formula_value() {
    assert_eq!(trial_count(false, 5, 10), 5);
}

#[test]
fn trial_count_caps_large_values() {
    assert_eq!(trial_count(false, 50, 10), 10);
    assert_eq!(trial_count(false, u64::MAX, 1000), 1000);
}

#[test]
fn trial_count_at_least_one() {
    assert_eq!(trial_count(false, 0, 10), 1);
}

#[test]
fn trial_count_one_without_outliers() {
    assert_eq!(trial_count(true, 7, 10), 1);
    assert_eq!(trials_for(0.99, 0.0, 2), 1);
}

#[test]
fn trial_count_of_scenario_parameters() {
    // log(0.01) / log(1 - 0.8^2) = 4.508...
    assert_eq!(trials_for(0.99, 0.2, 2), 5);
}

#[test]
fn trial_count_grows_with_confidence_and_outliers() {
    let mut last = 0;
    for c in [0.5, 0.9, 0.99, 0.999, 0.9999] {
        let n = trials_for(c, 0.3, 3);
        assert!(n >= 1);
        assert!(n >= last);
        last = n;
    }
    let mut last = 0;
    for r in [0.05, 0.1, 0.3, 0.5, 0.7] {
        let n = trials_for(0.99, r, 3);
        assert!(n >= 1);
        assert!(n >= last);
        last = n;
    }
}

#[test]
fn sample_index_scales_draw() {
    assert_eq!(sample_index(0, 6), 0);
    assert_eq!(sample_index(1u64 << 63, 6), 3);
    assert_eq!(sample_index(u64::MAX, 6), 5);
    assert_eq!(sample_index(u64::MAX, 1), 0);
}

#[test]
fn sample_indices_maps_each_draw() {
    let draws = vec![draw_for(4, 5), draw_for(0, 5), draw_for(4, 5), draw_for(2, 5)];
    assert_eq!(sample_indices(&draws, 5), vec![4, 0, 4, 2]);
    assert_eq!(sample_indices(&Vec::new(), 5), Vec::<usize>::new());
}

#[test]
fn best_keeps_earlier_on_tie() {
    let mut best: Best<u32> = Best::new();
    assert_eq!(best.score(), 0);
    assert!(!best.offer(0, 1));
    assert!(best.offer(3, 2));
    assert!(!best.offer(3, 3));
    assert!(!best.offer(1, 4));
    assert!(best.offer(4, 5));
    assert_eq!(best.score(), 4);
    assert_eq!(best.into_params(), Some(5));
}

#[test]
fn best_score_never_decreases() {
    let mut best: Best<usize> = Best::new();
    let mut last = 0;
    for (i, s) in [2usize, 0, 5, 1, 5, 3, 7, 0].iter().enumerate() {
        best.offer(*s, i);
        assert!(best.score() >= last);
        last = best.score();
    }
    assert_eq!(last, 7);
    assert_eq!(best.into_params(), Some(6));
}

#[test]
fn score_counts_inliers_of_whole_dataset() {
    let data = Data::new(vec![2.0, 2.0, 2.005, 1.999, 2.0, 40.0]);
    let mut model = constant(0.01);
    model.fit_hypothesis(data.points(), &vec![0, 1]);
    assert_eq!(score(&model, &data), 5);
    assert_eq!(data.n_datapoints(), 6);
}

#[test]
fn scoring_twice_gives_same_count() {
    let data = Data::new(vec![1.0, 1.5, 3.0, 1.2, 8.0]);
    let mut model = constant(0.6);
    model.fit_hypothesis(data.points(), &vec![1]);
    let first = score(&model, &data);
    let second = score(&model, &data);
    assert_eq!(first, second);
    assert_eq!(first, 3);
}

#[test]
fn scenario_cluster_with_one_outlier() {
    let data = Data::new(vec![2.0, 2.0, 2.0, 100.0, 2.0, 2.0]);
    let n_trials = trials_for(0.99, 0.2, 2) as usize;
    assert_eq!(n_trials, 5);
    let picks = [(3, 0), (0, 1), (2, 4), (3, 3), (5, 1)];
    let draws: Vec<Vec<u64>> = picks.iter().map(|&(a, b)| vec![draw_for(a, 6), draw_for(b, 6)]).collect();
    let mut model = constant(0.01);
    let fit = ransac(&mut model, &data, 2, &draws).unwrap();
    assert_eq!(fit.scores, vec![0, 5, 5, 1, 5]);
    assert_eq!(fit.score, 5);
    assert_eq!(fit.trial, Some(1));
    assert!((fit.params.unwrap() - 2.0).abs() < 1e-9);
}

#[test]
fn no_improving_trial_keeps_nothing() {
    let data = Data::new(vec![0.0, 10.0, 20.0]);
    let draws = vec![vec![draw_for(0, 3)], vec![draw_for(2, 3)]];
    let mut model = constant(0.0);
    let fit = ransac(&mut model, &data, 1, &draws).unwrap();
    assert_eq!(fit.scores, vec![0, 0]);
    assert_eq!(fit.score, 0);
    assert_eq!(fit.trial, None);
    assert_eq!(fit.params, None);
}

#[test]
fn no_trials_keeps_nothing() {
    let data = Data::new(vec![1.0, 2.0]);
    let mut model = constant(1.0);
    let fit = ransac(&mut model, &data, 2, &Vec::new()).unwrap();
    assert!(fit.scores.is_empty());
    assert_eq!(fit.score, 0);
    assert_eq!(fit.params, None);
}

#[test]
fn sample_as_large_as_dataset() {
    let data = Data::new(vec![4.0, 4.0]);
    let draws = vec![vec![u64::MAX, 0]];
    let mut model = constant(0.5);
    let fit = ransac(&mut model, &data, 2, &draws).unwrap();
    assert_eq!(fit.scores, vec![2]);
    assert_eq!(fit.trial, Some(0));
    assert_eq!(fit.params, Some(4.0));
}

#[test]
fn empty_dataset_is_refused() {
    let data: Data<f64> = Data::new(Vec::new());
    let mut model = constant(1.0);
    let r = ransac(&mut model, &data, 1, &vec![vec![0]]);
    assert_eq!(r.err(), Some(RansacError::EmptyDataset));
}

#[test]
fn sample_larger_than_dataset_is_refused() {
    let data = Data::new(vec![1.0, 2.0]);
    let mut model = constant(1.0);
    let r = ransac(&mut model, &data, 3, &vec![vec![0, 0, 0]]);
    assert_eq!(r.err(), Some(RansacError::SampleLargerThanDataset));
}

/// A small xorshift generator standing in for a random source.
fn next(state: &mut u64) -> u64 {
    *state ^= *state << 13;
    *state ^= *state >> 7;
    *state ^= *state << 17;
    *state
}

#[test]
fn recovers_known_model_across_seeds() {
    let data = Data::new(vec![3.0, 3.0, 9.0, 3.0, 3.0, 3.0, -4.0, 3.0, 3.0, 3.0]);
    let n_trials = trials_for(0.99, 0.2, 2) as usize;
    let mut recovered = 0;
    for seed in 1..=200u64 {
        let mut state = seed.wrapping_mul(0x9E37_79B9_7F4A_7C15) | 1;
        let draws: Vec<Vec<u64>> = (0..n_trials).map(|_| vec![next(&mut state), next(&mut state)]).collect();
        let mut model = constant(0.01);
        let fit = ransac(&mut model, &data, 2, &draws).unwrap();
        if let Some(p) = fit.params {
            if (p - 3.0).abs() < 1e-9 && fit.score == 8 {
                recovered += 1;
            }
        }
    }
    assert!(recovered >= 190, "recovered {} of 200", recovered);
}
