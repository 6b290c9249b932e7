//! Integers modulo the secp256k1 group order.
use generic_ec::curves::Secp256k1;
use rand::rngs::StdRng;
use vstd::prelude::*;
use vstd::std_specs::cmp::PartialEqSpecImpl;

use crate::bytes::{be_value, lemma_be_value_injective, lemma_be_value_leading_zeros,
    lemma_be_value_zero, lemma_u64_be_bytes_value, u64_be_bytes, u64_to_be_bytes};

verus! {

/// The order `q` of the secp256k1 group.
pub open spec fn curve_order() -> nat {
    0xFFFFFFFF_FFFFFFFF_FFFFFFFF_FFFFFFFE_BAAEDCE6_AF48A03B_BFD25E8C_D0364141nat
}

/// `b` is the inverse of `a` modulo the group order.
pub open spec fn is_inverse(a: nat, b: nat) -> bool {
    b < curve_order() && (a * b) % curve_order() == 1
}

/// The inverse of `a` modulo the group order (meaningful for `a % q != 0`).
pub open spec fn scalar_inverse(a: nat) -> nat {
    choose|b: nat| is_inverse(a, b)
}

/// What `serde_json::to_vec` writes for the `generic_ec` scalar of value `k`
/// (its default format, a JSON object naming the curve and the hex value).
pub uninterp spec fn scalar_json(k: nat) -> Seq<u8>;

/// An element of `Z/qZ`, `q` the secp256k1 group order, held as its canonical
/// 32-byte big-endian encoding.
#[derive(Clone, Copy, Debug)]
pub struct Scalar {
    pub(crate) bytes: [u8; 32],
}

impl View for Scalar {
    type V = nat;

    /// The integer in `0..q` that the scalar stands for.
    closed spec fn view(&self) -> nat {
        be_value(self.bytes@) % curve_order()
    }
}

/// Every scalar is below the group order.
pub broadcast proof fn lemma_scalar_below_order(s: Scalar)
    ensures
        #[trigger] s@ < curve_order(),
{
}

/// A scalar has at most one inverse modulo the group order.
pub proof fn lemma_inverse_unique(a: nat, b1: nat, b2: nat)
    requires
        is_inverse(a, b1),
        is_inverse(a, b2),
    ensures
        b1 == b2,
{
    let q = curve_order() as int;
    vstd::arithmetic::div_mod::lemma_mul_mod_noop_right(b1 as int, (a * b2) as int, q);
    vstd::arithmetic::div_mod::lemma_mul_mod_noop_left((b1 * a) as int, b2 as int, q);
    vstd::arithmetic::mul::lemma_mul_is_associative(b1 as int, a as int, b2 as int);
    vstd::arithmetic::mul::lemma_mul_is_commutative(b1 as int, a as int);
    vstd::arithmetic::div_mod::lemma_small_mod(b1, q as nat);
    vstd::arithmetic::div_mod::lemma_small_mod(b2, q as nat);
}

/// The inverse that `scalar_inverse` picks is the one any witness shows.
pub proof fn lemma_scalar_inverse_is(a: nat, b: nat)
    requires
        is_inverse(a, b),
    ensures
        scalar_inverse(a) == b,
{
    lemma_inverse_unique(a, scalar_inverse(a), b);
}

impl Scalar {
    /// Scalars hold the canonical encoding: its value is below the group order.
    #[verifier::type_invariant]
    spec fn canonical(self) -> bool {
        be_value(self.bytes@) < curve_order()
    }

    proof fn lemma_view_is_value(self)
        requires
            self.canonical(),
        ensures
            self@ == be_value(self.bytes@),
    {
        vstd::arithmetic::div_mod::lemma_small_mod(be_value(self.bytes@), curve_order());
    }

    /// The scalar `0`.
    pub fn zero() -> (r: Scalar)
        ensures
            r@ == 0,
    {
        let bytes = [0u8; 32];
        proof {
            lemma_be_value_zero(bytes@);
        }
        Scalar { bytes }
    }

    /// The scalar of value `x`.
    pub fn from_u64(x: u64) -> (r: Scalar)
        ensures
            r@ == x,
    {
        let b = u64_to_be_bytes(x);
        let mut bytes = [0u8; 32];
        let mut j: usize = 0;
        while j < 8
            invariant
                j <= 8,
                b@ == u64_be_bytes(x),
                forall|i: int| 0 <= i < 24 ==> bytes@[i] == 0,
                forall|i: int| 0 <= i < j ==> bytes@[24 + i] == b@[i],
            decreases 8 - j,
        {
            bytes[24 + j] = b[j];
            j = j + 1;
        }
        proof {
            let zeros = bytes@.take(24);
            assert(bytes@ =~= zeros + u64_be_bytes(x));
            lemma_be_value_leading_zeros(zeros, u64_be_bytes(x));
            lemma_u64_be_bytes_value(x);
            vstd::arithmetic::div_mod::lemma_small_mod(x as nat, curve_order());
        }
        Scalar { bytes }
    }

    /// Whether this is the scalar `0`.
    pub fn is_zero(&self) -> (r: bool)
        ensures
            r == (self@ == 0),
    {
        proof {
            use_type_invariant(self);
            self.lemma_view_is_value();
            lemma_be_value_zero(self.bytes@);
        }
        let mut j: usize = 0;
        while j < 32
            invariant
                j <= 32,
                forall|i: int| 0 <= i < j ==> self.bytes@[i] == 0,
            decreases 32 - j,
        {
            if self.bytes[j] != 0 {
                proof {
                    use_type_invariant(self);
                    self.lemma_view_is_value();
                    lemma_be_value_zero(self.bytes@);
                    assert(self.bytes@[j as int] != 0);
                }
                return false;
            }
            j = j + 1;
        }
        true
    }

    /// The canonical 32-byte big-endian encoding.
    pub fn to_be_bytes(&self) -> (r: [u8; 32])
        ensures
            be_value(r@) == self@,
            be_value(r@) < curve_order(),
    {
        proof {
            use_type_invariant(self);
            self.lemma_view_is_value();
        }
        self.bytes
    }

    /// The scalar that `bytes` encodes (big-endian), if that integer is below the
    /// group order.
    pub fn from_be_bytes(bytes: &[u8; 32]) -> (r: Option<Scalar>)
        ensures
            r is Some <==> be_value(bytes@) < curve_order(),
            r matches Some(s) ==> s@ == be_value(bytes@),
    {
        if is_canonical_encoding(bytes) {
            let s = Scalar { bytes: *bytes };
            proof {
                s.lemma_view_is_value();
            }
            Some(s)
        } else {
            None
        }
    }

    /// `(self + other) mod q`.
    pub fn plus(&self, other: &Scalar) -> (r: Scalar)
        ensures
            r@ == (self@ + other@) % curve_order(),
    {
        scalar_add(self, other)
    }

    /// `(self * other) mod q`.
    pub fn times(&self, other: &Scalar) -> (r: Scalar)
        ensures
            r@ == (self@ * other@) % curve_order(),
    {
        scalar_mul(self, other)
    }

    /// The inverse modulo `q`; `None` exactly for the scalar `0`.
    pub fn invert(&self) -> (r: Option<Scalar>)
        ensures
            r is Some <==> self@ != 0,
            r matches Some(v) ==> v@ == scalar_inverse(self@) && is_inverse(self@, v@),
    {
        let r = scalar_invert(self);
        proof {
            if let Some(v) = r {
                lemma_scalar_inverse_is(self@, v@);
            }
        }
        r
    }
}

impl PartialEq for Scalar {
    fn eq(&self, other: &Self) -> (r: bool) {
        proof {
            use_type_invariant(self);
            use_type_invariant(other);
            self.lemma_view_is_value();
            other.lemma_view_is_value();
        }
        let mut j: usize = 0;
        while j < 32
            invariant
                j <= 32,
                forall|i: int| 0 <= i < j ==> self.bytes@[i] == other.bytes@[i],
            decreases 32 - j,
        {
            if self.bytes[j] != other.bytes[j] {
                proof {
                    use_type_invariant(self);
                    use_type_invariant(other);
                    self.lemma_view_is_value();
                    other.lemma_view_is_value();
                    if be_value(self.bytes@) == be_value(other.bytes@) {
                        lemma_be_value_injective(self.bytes@, other.bytes@);
                        assert(self.bytes@[j as int] == other.bytes@[j as int]);
                    }
                }
                return false;
            }
            j = j + 1;
        }
        proof {
            assert(self.bytes@ =~= other.bytes@);
        }
        true
    }
}

impl PartialEqSpecImpl for Scalar {
    open spec fn obeys_eq_spec() -> bool {
        true
    }

    open spec fn eq_spec(&self, other: &Self) -> bool {
        self@ == other@
    }
}

impl Eq for Scalar {}

/// Whether `generic_ec::Scalar::<Secp256k1>::from_be_bytes` accepts `bytes`: the
/// source (`from_be_bytes_exact` of the `k256` scalar) accepts exactly the
/// integers below the group order.
#[verifier::external_body]
fn is_canonical_encoding(bytes: &[u8; 32]) -> (r: bool)
    ensures
        r == (be_value(bytes@) < curve_order()),
{
    generic_ec::Scalar::<Secp256k1>::from_be_bytes(bytes).is_ok()
}

/// `generic_ec::Scalar::<Secp256k1>::from_be_bytes_mod_order`: reads `bytes` as a
/// big-endian integer and reduces it modulo the group order, as its documentation
/// states.
#[verifier::external_body]
pub(crate) fn scalar_from_be_bytes_mod_order(bytes: &[u8]) -> (r: Scalar)
    ensures
        r@ == be_value(bytes@) % curve_order(),
{
    let s = generic_ec::Scalar::<Secp256k1>::from_be_bytes_mod_order(bytes);
    Scalar { bytes: s.to_be_bytes().as_bytes().try_into().expect("32-byte scalar encoding") }
}

/// Scalar addition of `generic_ec` (`&Scalar + &Scalar`): addition modulo the
/// group order.
#[verifier::external_body]
fn scalar_add(a: &Scalar, b: &Scalar) -> (r: Scalar)
    ensures
        r@ == (a@ + b@) % curve_order(),
{
    let a = generic_ec::Scalar::<Secp256k1>::from_be_bytes(a.bytes).expect("canonical scalar");
    let b = generic_ec::Scalar::<Secp256k1>::from_be_bytes(b.bytes).expect("canonical scalar");
    Scalar { bytes: (a + b).to_be_bytes().as_bytes().try_into().expect("32-byte scalar encoding") }
}

/// Scalar multiplication of `generic_ec` (`&Scalar * &Scalar`): multiplication
/// modulo the group order.
#[verifier::external_body]
fn scalar_mul(a: &Scalar, b: &Scalar) -> (r: Scalar)
    ensures
        r@ == (a@ * b@) % curve_order(),
{
    let a = generic_ec::Scalar::<Secp256k1>::from_be_bytes(a.bytes).expect("canonical scalar");
    let b = generic_ec::Scalar::<Secp256k1>::from_be_bytes(b.bytes).expect("canonical scalar");
    Scalar { bytes: (a * b).to_be_bytes().as_bytes().try_into().expect("32-byte scalar encoding") }
}

/// `generic_ec::Scalar::invert`: `None` only for the zero scalar, else the `S^-1`
/// with `S * S^-1 = 1`, as its documentation states.
#[verifier::external_body]
fn scalar_invert(a: &Scalar) -> (r: Option<Scalar>)
    ensures
        r is Some <==> a@ != 0,
        r matches Some(v) ==> is_inverse(a@, v@),
{
    let a = generic_ec::Scalar::<Secp256k1>::from_be_bytes(a.bytes).expect("canonical scalar");
    match a.invert() {
        Some(v) => Some(Scalar { bytes: v.to_be_bytes().as_bytes().try_into().expect("32-byte scalar") }),
        None => None,
    }
}

/// `generic_ec::SecretScalar::<Secp256k1>::random`, which samples through
/// `Scalar::random`: the documentation promises a non-zero scalar. Which scalar
/// comes out depends on the generator, so nothing more is stated. (The source
/// panics if the generator yields 100 zero scalars in a row, which no `requires`
/// can rule out.)
#[verifier::external_body]
pub(crate) fn random_scalar(rng: &mut StdRng) -> (r: Scalar)
    ensures
        r@ != 0,
{
    let s = generic_ec::SecretScalar::<Secp256k1>::random(rng);
    Scalar { bytes: s.as_ref().to_be_bytes().as_bytes().try_into().expect("32-byte scalar encoding") }
}

/// `serde_json::to_vec` of the `generic_ec` scalar of the same value. The bytes
/// are named by `scalar_json`; serialising a scalar does not fail.
#[verifier::external_body]
pub(crate) fn scalar_to_json(s: &Scalar) -> (r: Vec<u8>)
    ensures
        r@ == scalar_json(s@),
{
    let s = generic_ec::Scalar::<Secp256k1>::from_be_bytes(s.bytes).expect("canonical scalar");
    serde_json::to_vec(&s).expect("scalar serialization should succeed")
}

} // verus!
