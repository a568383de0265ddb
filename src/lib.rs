//! Random sample consensus: fits a model to data contaminated with outliers by
//! repeatedly fitting minimal random samples and keeping the hypothesis that the
//! most points agree with.
//!
//! - `trials`: how many trials to run, bounded below by one and above by a cap.
//! - `sampling`: turning 64-bit random draws into dataset indices.
//! - `selection`: the best-so-far rule (strictly higher score wins, ties keep the
//!   earlier candidate) and its laws.
//! - `model`: the dataset and the estimator that callers implement.
//! - `consensus`: scoring and the trial loop.
use vstd::prelude::*;

pub mod consensus;
pub mod model;
pub mod sampling;
pub mod selection;
pub mod trials;

verus! {

} // verus!
