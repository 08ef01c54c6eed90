//! A generational genetic algorithm for 0/1 knapsack instances.
//!
//! Fitness is an unsigned integer (the knapsack value of a feasible
//! selection, zero otherwise), and every rate is given in parts per million
//! of [`RATE_SCALE`].
use vstd::prelude::*;

pub mod knapsack;
pub mod individual;
pub mod random;
pub mod selection;
pub mod variation;
pub mod population;
pub mod ga;
pub mod report;

verus! {

/// The denominator of every rate: a rate `r` stands for `r / RATE_SCALE`.
pub const RATE_SCALE: u32 = 1_000_000;

} // verus!
