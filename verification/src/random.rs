//! The source of randomness: a seedable generator of the `rand` crate, and
//! the one way in which the library draws from it.

use rand::rngs::StdRng;
use rand::Rng;
use vstd::prelude::*;

verus! {

/// Declares `rand::rngs::StdRng`, the seedable generator of the `rand`
/// crate, as a type whose inside is not looked into.
#[verifier::external_type_specification]
#[verifier::external_body]
pub struct ExStdRng(rand::rngs::StdRng);

/// Calls `rand::Rng::gen_range` on the half-open range `low..high`.
///
/// Trusted, not proved: `gen_range` panics on an empty range, which the
/// precondition rules out, and otherwise returns a value of the range. Which
/// value is not known, so callers are verified for every one of them.
#[verifier::external_body]
pub(crate) fn gen_range(rng: &mut StdRng, low: usize, high: usize) -> (value: usize)
    requires
        low < high,
    ensures
        low <= value < high,
{
    rng.gen_range(low..high)
}

} // verus!
