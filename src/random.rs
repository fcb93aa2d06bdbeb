//! The source of chance that drives the flow.

use vstd::prelude::*;
use rand::Rng;

verus! {

/// The seeded generator from `rand` that a caller hands to each tick.
#[verifier::external_type_specification]
#[verifier::external_body]
pub struct ExStdRng(rand::rngs::StdRng);

/// Relies on `rand::Rng::random_range` over the non-empty range `0..3`: it
/// returns a value of that range and does not panic.
#[verifier::external_body]
pub(crate) fn draw_below_three(rng: &mut rand::rngs::StdRng) -> (r: u8)
    ensures
        r < 3,
{
    rng.random_range(0..3u8)
}

} // verus!
