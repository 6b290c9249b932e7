//! A Fiat-Shamir style transcript: labelled, length-framed data hashed with
//! SHA-256.
use vstd::prelude::*;

use crate::bytes::{append_bytes, u64_be_bytes, u64_to_be_bytes};
use crate::hash::{sha256, sha256_digest};
use crate::point::{point_json, point_to_json, Point};
use crate::scalar::{scalar_json, scalar_to_json, Scalar};

verus! {

/// The bytes `absorb_bytes` adds for `label` and `bytes`: the label, the length of
/// `bytes` as a big-endian `u64`, then `bytes`.
pub open spec fn framed(label: Seq<u8>, bytes: Seq<u8>) -> Seq<u8> {
    label + u64_be_bytes(bytes.len() as u64) + bytes
}

/// A running transcript.
#[derive(Debug, Clone)]
pub struct Transcript {
    absorbed: Vec<u8>,
}

impl View for Transcript {
    type V = Seq<u8>;

    /// Everything absorbed so far, the domain first.
    closed spec fn view(&self) -> Seq<u8> {
        self.absorbed@
    }
}

impl Transcript {
    /// A transcript that starts with `domain`.
    pub fn new(domain: &'static [u8]) -> (t: Transcript)
        ensures
            t@ == domain@,
    {
        let mut absorbed: Vec<u8> = Vec::new();
        append_bytes(&mut absorbed, domain);
        Transcript { absorbed }
    }

    /// Absorbs `bytes` under `label`, framed by its length.
    pub fn absorb_bytes(&mut self, label: &'static [u8], bytes: &[u8])
        ensures
            final(self)@ == old(self)@ + framed(label@, bytes@),
    {
        let len = u64_to_be_bytes(bytes.len() as u64);
        append_bytes(&mut self.absorbed, label);
        append_bytes(&mut self.absorbed, len.as_slice());
        append_bytes(&mut self.absorbed, bytes);
        assert(self.absorbed@ =~= old(self).absorbed@ + framed(label@, bytes@));
    }

    /// Absorbs the JSON encoding of `scalar` under `label`.
    pub fn absorb_scalar(&mut self, label: &'static [u8], scalar: &Scalar)
        ensures
            final(self)@ == old(self)@ + framed(label@, scalar_json(scalar@)),
    {
        let bytes = scalar_to_json(scalar);
        self.absorb_bytes(label, bytes.as_slice());
    }

    /// Absorbs the JSON encoding of `point` under `label`.
    pub fn absorb_point(&mut self, label: &'static [u8], point: &Point)
        ensures
            final(self)@ == old(self)@ + framed(label@, point_json(point@)),
    {
        let bytes = point_to_json(point);
        self.absorb_bytes(label, bytes.as_slice());
    }

    /// SHA-256 of everything absorbed.
    pub fn finalize(self) -> (digest: [u8; 32])
        ensures
            digest@ == sha256(self@),
    {
        sha256_digest(self.absorbed.as_slice())
    }
}

} // verus!
