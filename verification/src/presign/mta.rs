//! Multiplication-to-addition backends: turn a product of two secrets into an
//! additive share of it.
use core::convert::Infallible;
use vstd::prelude::*;

use crate::scalar::{curve_order, Scalar};

verus! {

/// A multiplication-to-addition (MtA) backend, for users to implement.
pub trait MultiplicationToAddition {
    type Error;

    /// `share` is an answer this backend may give as this party's additive share
    /// of `lhs * rhs`. A backend that states nothing of its answers keeps this
    /// default, which allows every share.
    open spec fn share_of(&self, lhs: nat, rhs: nat, share: nat) -> bool {
        true
    }

    /// This backend may fail when asked for a share of `lhs * rhs`. A backend
    /// that states nothing of its failures keeps this default, which allows
    /// failing on every input.
    open spec fn may_fail(&self, lhs: nat, rhs: nat) -> bool {
        true
    }

    /// This party's additive share of `lhs * rhs`.
    fn multiply_to_additive_share(&mut self, lhs: Scalar, rhs: Scalar) -> (r: core::result::Result<
        Scalar,
        Self::Error,
    >)
        ensures
            r matches Ok(v) ==> old(self).share_of(lhs@, rhs@, v@),
            r is Err ==> old(self).may_fail(lhs@, rhs@),
    ;
}

/// The backend that multiplies directly: the whole product is this party's share.
#[derive(Clone, Copy, Debug, Default)]
pub struct DirectMta;

impl MultiplicationToAddition for DirectMta {
    type Error = Infallible;

    /// The whole product is the share.
    open spec fn share_of(&self, lhs: nat, rhs: nat, share: nat) -> bool {
        share == (lhs * rhs) % curve_order()
    }

    /// Multiplying never fails.
    open spec fn may_fail(&self, lhs: nat, rhs: nat) -> bool {
        false
    }

    fn multiply_to_additive_share(&mut self, lhs: Scalar, rhs: Scalar) -> (r:
        core::result::Result<Scalar, Infallible>)
        ensures
            r matches Ok(v) && v@ == (lhs@ * rhs@) % curve_order(),
    {
        Ok(lhs.times(&rhs))
    }
}

} // verus!
