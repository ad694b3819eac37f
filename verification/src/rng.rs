//! The one source of randomness: sampling the position and velocity of a
//! freshly inserted boid.

use rand::Rng;
use vstd::prelude::*;

verus! {

/// Relies on `rand::Rng::gen_range` on an `i64` half-open range: the result
/// lies in `low..high`; the range is non-empty, so the call does not panic.
/// Nothing is assumed about the distribution of the result.
#[verifier::external_body]
pub(crate) fn random_range_i64(low: i64, high: i64) -> (r: i64)
    requires
        low < high,
    ensures
        low <= r < high,
{
    rand::thread_rng().gen_range(low..high)
}

} // verus!
