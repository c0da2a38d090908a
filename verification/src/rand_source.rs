//! Randomness source: the standard generator of the `rand` crate,
//! declared opaquely and drawn from behind a trusted wrapper.
//!
//! Nothing is promised of a drawn value: every caller's contract holds
//! whatever comes back.

use vstd::prelude::*;

verus! {

/// The `rand` crate's standard pseudo-random generator, opaque to
/// verification. Callers thread it through matching so nullifier
/// secrets and deal identifiers can be drawn privately.
#[verifier::external_type_specification]
#[verifier::external_body]
pub struct ExStdRng(rand::rngs::StdRng);

/// Relies on `rand_core::Rng::next_u64` for `rand::rngs::StdRng`:
/// draws the generator's next 64-bit value. Nothing is promised of
/// the result.
#[verifier::external_body]
pub fn next_random_u64(rng: &mut rand::rngs::StdRng) -> u64 {
    rand::Rng::next_u64(rng)
}

} // verus!
