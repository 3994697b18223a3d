//! Randomness for the tilt a brick takes while bouncing out.

use vstd::prelude::*;

verus! {

/// Relies on `rand::random` with the `Standard` distribution: it returns a
/// fresh pseudo-random value, and nothing is promised of which one.
#[verifier::external_body]
pub(crate) fn random_u32() -> u32 {
    rand::random::<u32>()
}

} // verus!
