use vstd::prelude::*;

verus! {

/// Index of a party in the protocol (`0..n`).
pub type PartyIndex = u16;

/// Everything that can go wrong in key generation, pre-signing and signing.
#[derive(Debug)]
pub enum Error {
    /// The round-based transport failed, or a round's input was incomplete.
    Protocol(String),
    /// `n`, `threshold` and `party_index` do not describe a valid party.
    InvalidConfiguration { n: u16, threshold: u16, party_index: PartyIndex },
    /// The participant list has the wrong length or repeats a party.
    InvalidParticipantSet { expected: u16, found: usize },
    /// A party's opening does not match the commitment it sent.
    CommitmentMismatch { sender: PartyIndex },
    /// A secret share was zero.
    ZeroShare,
    /// A nonce (or a value derived from it) was zero.
    ZeroNonce,
    /// A nonce point was the identity or did not match its scalar.
    InvalidNoncePoint,
    /// The signature value `s` came out zero.
    InvalidSignature,
    /// A value could not be serialised.
    Serialization(String),
}

/// Result type of this crate.
pub type Result<T> = core::result::Result<T, Error>;

} // verus!
