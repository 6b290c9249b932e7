//! Points of the secp256k1 group, held as their uncompressed SEC1 encoding.
use generic_ec::curves::Secp256k1;
use vstd::prelude::*;
use vstd::std_specs::cmp::PartialEqSpecImpl;

use crate::scalar::{curve_order, Scalar};

verus! {

/// Byte length of an uncompressed secp256k1 point encoding.
pub const UNCOMPRESSED_POINT_LEN: usize = 65;

/// The encoding of the identity point: all bytes zero.
pub open spec fn identity_encoding() -> Seq<u8> {
    Seq::new(65, |i: int| 0u8)
}

/// Whether `generic_ec::Point::<Secp256k1>::from_bytes` accepts `enc`.
pub uninterp spec fn is_point_encoding(enc: Seq<u8>) -> bool;

/// The uncompressed encoding of `G * k`, `G` the secp256k1 generator.
pub uninterp spec fn generator_mul(k: nat) -> Seq<u8>;

/// The uncompressed encoding of the sum of the points encoded by `p` and `q`.
pub uninterp spec fn point_sum(p: Seq<u8>, q: Seq<u8>) -> Seq<u8>;

/// The uncompressed encoding of the point encoded by `p`, multiplied by `k`.
pub uninterp spec fn point_scaled(p: Seq<u8>, k: nat) -> Seq<u8>;

/// What `serde_json::to_vec` writes for the `generic_ec` point encoded by `p`.
pub uninterp spec fn point_json(p: Seq<u8>) -> Seq<u8>;

/// A point of the secp256k1 group (the identity included).
#[derive(Clone, Copy, Debug)]
pub struct Point {
    pub(crate) bytes: [u8; 65],
}

impl View for Point {
    type V = Seq<u8>;

    /// The uncompressed SEC1 encoding (`0x04 || x || y`), or 65 zero bytes for the
    /// identity.
    closed spec fn view(&self) -> Seq<u8> {
        self.bytes@
    }
}

/// Every point encoding is 65 bytes long.
pub broadcast proof fn lemma_point_encoding_len(p: Point)
    ensures
        #[trigger] p@.len() == 65,
{
}

impl Point {
    /// Points hold encodings that `generic_ec` decodes.
    #[verifier::type_invariant]
    spec fn decodable(self) -> bool {
        is_point_encoding(self.bytes@)
    }

    /// The identity point.
    pub fn zero() -> (r: Point)
        ensures
            r@ == identity_encoding(),
            r@ == generator_mul(0),
    {
        identity_point()
    }

    /// `G * k`.
    pub fn generator_times(k: &Scalar) -> (r: Point)
        ensures
            r@ == generator_mul(k@),
            r@ == identity_encoding() <==> k@ == 0,
    {
        mul_generator(k)
    }

    /// The group sum `self + other`.
    pub fn plus(&self, other: &Point) -> (r: Point)
        ensures
            r@ == point_sum(self@, other@),
            self@ == identity_encoding() ==> r@ == other@,
            other@ == identity_encoding() ==> r@ == self@,
            forall|a: nat, b: nat|
                #![trigger generator_mul(a), generator_mul(b)]
                a < curve_order() && b < curve_order() && self@ == generator_mul(a)
                    && other@ == generator_mul(b) ==> r@ == generator_mul((a + b) % curve_order()),
    {
        add_points(self, other)
    }

    /// `self * k`.
    pub fn times(&self, k: &Scalar) -> (r: Point)
        ensures
            r@ == point_scaled(self@, k@),
            forall|a: nat|
                #![trigger generator_mul(a)]
                a < curve_order() && self@ == generator_mul(a) ==> r@ == generator_mul(
                    (a * k@) % curve_order(),
                ),
    {
        mul_point(self, k)
    }

    /// Whether this is the identity point.
    pub fn is_zero(&self) -> (r: bool)
        ensures
            r == (self@ == identity_encoding()),
    {
        let mut j: usize = 0;
        while j < UNCOMPRESSED_POINT_LEN
            invariant
                j <= 65,
                forall|i: int| 0 <= i < j ==> self.bytes@[i] == 0,
            decreases 65 - j,
        {
            if self.bytes[j] != 0 {
                assert(self.bytes@[j as int] != identity_encoding()[j as int]);
                return false;
            }
            j = j + 1;
        }
        assert(self.bytes@ =~= identity_encoding());
        true
    }

    /// The uncompressed SEC1 encoding.
    pub fn to_uncompressed_bytes(&self) -> (r: [u8; 65])
        ensures
            r@ == self@,
    {
        self.bytes
    }

    /// The point that `bytes` encodes, if `generic_ec` accepts the encoding.
    pub fn from_uncompressed_bytes(bytes: &[u8; 65]) -> (r: Option<Point>)
        ensures
            r is Some <==> is_point_encoding(bytes@),
            r matches Some(p) ==> p@ == bytes@,
    {
        if point_decodes(bytes) {
            Some(Point { bytes: *bytes })
        } else {
            None
        }
    }
}

impl PartialEq for Point {
    fn eq(&self, other: &Self) -> (r: bool) {
        let mut j: usize = 0;
        while j < UNCOMPRESSED_POINT_LEN
            invariant
                j <= 65,
                forall|i: int| 0 <= i < j ==> self.bytes@[i] == other.bytes@[i],
            decreases 65 - j,
        {
            if self.bytes[j] != other.bytes[j] {
                assert(self.bytes@[j as int] != other.bytes@[j as int]);
                return false;
            }
            j = j + 1;
        }
        assert(self.bytes@ =~= other.bytes@);
        true
    }
}

impl PartialEqSpecImpl for Point {
    open spec fn obeys_eq_spec() -> bool {
        true
    }

    open spec fn eq_spec(&self, other: &Self) -> bool {
        self@ == other@
    }
}

impl Eq for Point {}

/// Whether `generic_ec::Point::<Secp256k1>::from_bytes` accepts `bytes`.
#[verifier::external_body]
fn point_decodes(bytes: &[u8; 65]) -> (r: bool)
    ensures
        r == is_point_encoding(bytes@),
{
    generic_ec::Point::<Secp256k1>::from_bytes(bytes).is_ok()
}

/// `generic_ec::Point::<Secp256k1>::zero()`, encoded uncompressed: the source
/// writes the identity as all-zero bytes. The identity is `G * 0`.
#[verifier::external_body]
fn identity_point() -> (r: Point)
    ensures
        r@ == identity_encoding(),
        r@ == generator_mul(0),
{
    let p = generic_ec::Point::<Secp256k1>::zero();
    Point { bytes: p.to_bytes(false).as_bytes().try_into().expect("65-byte point encoding") }
}

/// `Point::generator() * k` of `generic_ec`. The result is named by
/// `generator_mul`; since `G` generates the group of prime order `q`, it is the
/// identity exactly when `k` is zero.
#[verifier::external_body]
fn mul_generator(k: &Scalar) -> (r: Point)
    ensures
        r@ == generator_mul(k@),
        r@ == identity_encoding() <==> k@ == 0,
{
    let k = generic_ec::Scalar::<Secp256k1>::from_be_bytes(k.bytes).expect("canonical scalar");
    let p = generic_ec::Point::<Secp256k1>::generator() * k;
    Point { bytes: p.to_bytes(false).as_bytes().try_into().expect("65-byte point encoding") }
}

/// Point addition of `generic_ec` (`&Point + &Point`). The result is named by
/// `point_sum`. Stated besides: the identity is neutral (`P + O = P`, as the
/// documentation of `Point::zero` says) and, `G` generating the group,
/// `G*a + G*b = G*(a + b mod q)`.
#[verifier::external_body]
fn add_points(p: &Point, q: &Point) -> (r: Point)
    ensures
        r@ == point_sum(p@, q@),
        p@ == identity_encoding() ==> r@ == q@,
        q@ == identity_encoding() ==> r@ == p@,
        forall|a: nat, b: nat|
                #![trigger generator_mul(a), generator_mul(b)]
            a < curve_order() && b < curve_order() && p@ == generator_mul(a) && q@
                == generator_mul(b) ==> r@ == generator_mul((a + b) % curve_order()),
{
    let p = generic_ec::Point::<Secp256k1>::from_bytes(p.bytes).expect("valid point");
    let q = generic_ec::Point::<Secp256k1>::from_bytes(q.bytes).expect("valid point");
    Point { bytes: (p + q).to_bytes(false).as_bytes().try_into().expect("65-byte point encoding") }
}

/// Point-by-scalar multiplication of `generic_ec` (`&Point * &Scalar`). The
/// result is named by `point_scaled`. Stated besides: `(G*a) * k = G*(a*k mod q)`.
#[verifier::external_body]
fn mul_point(p: &Point, k: &Scalar) -> (r: Point)
    ensures
        r@ == point_scaled(p@, k@),
        forall|a: nat|
                #![trigger generator_mul(a)]
            a < curve_order() && p@ == generator_mul(a) ==> r@ == generator_mul(
                (a * k@) % curve_order(),
            ),
{
    let p = generic_ec::Point::<Secp256k1>::from_bytes(p.bytes).expect("valid point");
    let k = generic_ec::Scalar::<Secp256k1>::from_be_bytes(k.bytes).expect("canonical scalar");
    Point { bytes: (p * k).to_bytes(false).as_bytes().try_into().expect("65-byte point encoding") }
}

/// `serde_json::to_vec` of the `generic_ec` point. The bytes are named by
/// `point_json`; serialising a point does not fail.
#[verifier::external_body]
pub(crate) fn point_to_json(p: &Point) -> (r: Vec<u8>)
    ensures
        r@ == point_json(p@),
{
    let p = generic_ec::Point::<Secp256k1>::from_bytes(p.bytes).expect("valid point");
    serde_json::to_vec(&p).expect("point serialization should succeed")
}

} // verus!
