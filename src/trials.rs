use vstd::prelude::*;

verus! {

/// The number of trials actually run, given the rounded-up count from the
/// confidence formula (`raw`) and the caller's cap: at least one, at most the cap.
/// With no outliers assumed a single trial suffices.
pub open spec fn trial_count_spec(no_outliers: bool, raw: nat, max_trials: nat) -> nat {
    if no_outliers || raw == 0 {
        1
    } else if raw > max_trials {
        max_trials
    } else {
        raw
    }
}

/// The bounded trial count never decreases as the formula's count grows (with the
/// other inputs held), and it is always at least one trial and at most the cap.
pub proof fn lemma_trial_count_monotone(no_outliers: bool, raw: nat, more: nat, max_trials: nat)
    requires
        raw <= more,
        max_trials >= 1,
    ensures
        trial_count_spec(no_outliers, raw, max_trials) <= trial_count_spec(no_outliers, more, max_trials),
        1 <= trial_count_spec(no_outliers, raw, max_trials) <= max_trials,
{
}

/// Bounds the trial count derived from `ceil(log(1 - confidence) / log(1 - (1 - outlier_ratio)^S))`.
///
/// `raw` is that rounded-up value as an integer (saturated by the caller when the
/// formula diverges, as it does when `confidence` is one); `no_outliers` tells that
/// `outlier_ratio` is zero, where the formula is undefined and one trial suffices.
pub fn trial_count(no_outliers: bool, raw: u64, max_trials: u64) -> (r: u64)
    requires
        max_trials >= 1,
    ensures
        r as nat == trial_count_spec(no_outliers, raw as nat, max_trials as nat),
        1 <= r <= max_trials,
        no_outliers ==> r == 1,
{
    if no_outliers || raw == 0 {
        1
    } else if raw > max_trials {
        max_trials
    } else {
        raw
    }
}

} // verus!
