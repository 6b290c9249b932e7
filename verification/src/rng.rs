//! The seeded random source of key generation and pre-signing.
use rand::rngs::StdRng;
use rand::{RngCore, SeedableRng};
use vstd::prelude::*;

verus! {

/// `rand::rngs::StdRng`, carried through the protocol code as an opaque value.
#[verifier::external_type_specification]
#[verifier::external_body]
pub struct ExStdRng(StdRng);

/// Calls `StdRng::seed_from_u64(seed)`. Nothing is stated of the generator's state.
#[verifier::external_body]
pub(crate) fn seeded_rng(seed: u64) -> (rng: StdRng) {
    StdRng::seed_from_u64(seed)
}

/// Fills a fresh 32-byte salt with `RngCore::fill_bytes`. The bytes depend on the
/// generator's state, so nothing is stated of them beyond their count, which the
/// type fixes.
#[verifier::external_body]
pub(crate) fn random_salt(rng: &mut StdRng) -> (salt: [u8; 32]) {
    let mut salt = [0u8; 32];
    rng.fill_bytes(&mut salt);
    salt
}

} // verus!
