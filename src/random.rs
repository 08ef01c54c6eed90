//! The random source: the few draws the algorithm makes from `rand`.
use rand::Rng;
use rand::SeedableRng;
use vstd::prelude::*;

verus! {

#[verifier::external_type_specification]
#[verifier::external_body]
pub struct ExStdRng(rand::rngs::StdRng);

/// Relies on rand's `SeedableRng::from_entropy`: a generator seeded from the
/// operating system. Nothing is promised of its output.
#[verifier::external_body]
pub(crate) fn fresh_rng() -> (r: rand::rngs::StdRng) {
    rand::rngs::StdRng::from_entropy()
}

/// Relies on rand's `Rng::gen_range` over `0..n`: a value below `n` (it
/// panics only on an empty range, which `requires` leaves out).
#[verifier::external_body]
pub(crate) fn draw_below(rng: &mut rand::rngs::StdRng, n: u128) -> (r: u128)
    requires
        n > 0,
    ensures
        r < n,
{
    rng.gen_range(0..n)
}

/// Relies on rand's `Rng::gen::<bool>`: a fair coin. Any value may come back.
#[verifier::external_body]
pub(crate) fn draw_bool(rng: &mut rand::rngs::StdRng) -> (r: bool) {
    rng.gen::<bool>()
}

} // verus!
