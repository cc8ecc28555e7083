//! Random numbers for the proxy's loss and delay choices.

use rand::Rng;
use vstd::prelude::*;

verus! {

/// A random number in `low..=high`.
///
/// Trusted: calls `rand::Rng::random_range` on the thread-local generator
/// `rand::rng()` with the range `low..=high`. The documentation says the
/// result lies in the range and that an empty range panics, which the
/// `requires` rules out. Which number comes back is left open.
#[verifier::external_body]
pub(crate) fn random_in(low: u32, high: u32) -> (r: u32)
    requires
        low <= high,
    ensures
        low <= r <= high,
{
    rand::rng().random_range(low..=high)
}

} // verus!
