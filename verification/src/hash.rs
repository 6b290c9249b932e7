//! SHA-256 of `sha2`.
use sha2::{Digest, Sha256};
use vstd::prelude::*;

verus! {

/// The SHA-256 digest of `data`.
pub uninterp spec fn sha256(data: Seq<u8>) -> Seq<u8>;

/// `Sha256::digest(data)` of `sha2`, named by `sha256`. Feeding the same bytes
/// to `update` in several pieces before `finalize` gives the same digest, so this
/// one call stands for every streaming use in the crate.
#[verifier::external_body]
pub(crate) fn sha256_digest(data: &[u8]) -> (r: [u8; 32])
    ensures
        r@ == sha256(data@),
{
    Sha256::digest(data).into()
}

} // verus!
