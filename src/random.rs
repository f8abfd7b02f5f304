//! Numbers drawn from a seeded pseudo-random stream.
use rand::rngs::SmallRng;
use rand::Rng;
use vstd::prelude::*;

verus! {

/// rand's `SmallRng`, carried as an opaque value: a game owns its stream
/// and hands it to `random_between`.
#[verifier::external_type_specification]
#[verifier::external_body]
pub struct ExSmallRng(SmallRng);

/// Relies on rand's `Rng::random_range`: a value sampled from the range
/// `low..=high`, which is not empty, lies in that range.
#[verifier::external_body]
pub(crate) fn random_between(rng: &mut SmallRng, low: u32, high: u32) -> (r: u32)
    requires
        low <= high,
    ensures
        low <= r <= high,
{
    rng.random_range(low..=high)
}

} // verus!
