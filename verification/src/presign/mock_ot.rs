//! A stand-in MtA backend whose share is always zero.
use core::convert::Infallible;
use vstd::prelude::*;

use crate::presign::mta::MultiplicationToAddition;
use crate::scalar::Scalar;

verus! {

/// A placeholder backend, not secure: it answers the share `0` for every product.
#[derive(Clone, Copy, Debug, Default)]
pub struct MockMta;

impl MultiplicationToAddition for MockMta {
    type Error = Infallible;

    /// The share is always zero.
    open spec fn share_of(&self, lhs: nat, rhs: nat, share: nat) -> bool {
        share == 0
    }

    /// Answering zero never fails.
    open spec fn may_fail(&self, lhs: nat, rhs: nat) -> bool {
        false
    }

    fn multiply_to_additive_share(&mut self, lhs: Scalar, rhs: Scalar) -> (r:
        core::result::Result<Scalar, Infallible>)
        ensures
            r matches Ok(v) && v@ == 0,
    {
        Ok(Scalar::zero())
    }
}

} // verus!
