//! Threshold ECDSA in the DKLs23 layout over secp256k1: distributed key
//! generation, pre-signing and signing, with the decisions of every protocol
//! round stated and proved in Verus.
//!
//! Each round is a verified step function from a party's state and the messages
//! it received to its next state and the message it sends; the transport that
//! carries the messages lies outside this crate. Curve arithmetic comes from
//! `generic_ec`, hashing from `sha2`, the JSON encoding of curve elements from
//! `serde_json` and sampling from `rand`, each behind a small trusted item whose
//! contract is documented where it is declared.

pub mod bytes;
pub mod error;
pub mod hash;
pub mod key_share;
pub mod keygen;
pub mod msg;
pub mod point;
pub mod presign;
pub mod protocol;
pub mod rng;
pub mod scalar;
pub mod signing;
pub mod transcript;

pub use error::{Error, PartyIndex, Result};
pub use key_share::KeyShare;
pub use msg::{KeygenCommitment, KeygenOpen, Msg, PresignMessage, PresignOpen, SigningMessage};
pub use point::Point;
pub use protocol::{validate_participant_set, validate_party_configuration};
pub use scalar::Scalar;
