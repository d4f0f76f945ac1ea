//! The one source of randomness the engine consumes.
use vstd::prelude::*;

verus! {

/// Relies on rand::random: draws one uniformly distributed byte from the
/// thread-local generator.  Nothing is promised of the value; callers state
/// what holds of every outcome.
#[verifier::external_body]
pub(crate) fn random_byte() -> u8 {
    rand::random::<u8>()
}

} // verus!
