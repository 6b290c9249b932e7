//! The messages of the protocol rounds.
use vstd::prelude::*;

use crate::point::Point;
use crate::protocol::CommitmentMessage;
use crate::scalar::Scalar;

verus! {

/// Key generation, round 1: the commitment to a party's secret share.
#[derive(Clone, Copy, Debug)]
pub struct KeygenCommitment {
    pub commitment: [u8; 32],
}

/// Key generation, round 2: the secret share and the salt that open the commitment.
#[derive(Clone, Copy, Debug)]
pub struct KeygenOpen {
    pub secret_share: Scalar,
    pub salt: [u8; 32],
}

/// Pre-signing, round 1: the commitment to a party's nonce share.
#[derive(Clone, Copy, Debug)]
pub struct PresignMessage {
    pub nonce_commitment: [u8; 32],
}

/// Pre-signing, round 2: the nonce share and the salt that open the commitment.
#[derive(Clone, Copy, Debug)]
pub struct PresignOpen {
    pub nonce_share: Scalar,
    pub salt: [u8; 32],
}

/// Signing, round 1: the message hash and the nonce point it is signed with.
#[derive(Clone, Copy, Debug)]
pub struct SigningMessage {
    pub message_hash: [u8; 32],
    pub nonce_point: Point,
}

/// Every message of the protocol.
#[derive(Clone, Copy, Debug)]
pub enum Msg {
    KeygenR1(KeygenCommitment),
    KeygenR2(KeygenOpen),
    PresignR1(PresignMessage),
    PresignR2(PresignOpen),
    SigningR1(SigningMessage),
}

impl CommitmentMessage for KeygenCommitment {
    open spec fn committed_bytes(&self) -> Seq<u8> {
        self.commitment@
    }

    fn commitment_digest(&self) -> (c: [u8; 32]) {
        self.commitment
    }
}

impl CommitmentMessage for PresignMessage {
    open spec fn committed_bytes(&self) -> Seq<u8> {
        self.nonce_commitment@
    }

    fn commitment_digest(&self) -> (c: [u8; 32]) {
        self.nonce_commitment
    }
}

} // verus!
