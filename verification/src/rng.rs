//! Trusted access to the host's random number generator.
use vstd::prelude::*;

verus! {

/// Relies on rand::random: draws one byte from the thread-local generator.
/// Nothing is promised of the value; callers state what holds of every
/// outcome.
#[verifier::external_body]
pub(crate) fn random_byte() -> u8 {
    rand::random::<u8>()
}

} // verus!
