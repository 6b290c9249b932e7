//! ECDSA signing and verification over secp256k1, and signing with a
//! presignature.
use vstd::prelude::*;
use vstd::std_specs::cmp::PartialEqSpecImpl;

use crate::bytes::{be_value, lemma_be_value_zero};
use crate::error::{Error, Result};
use crate::presign::Presignature;
use crate::point::{
    generator_mul, identity_encoding, lemma_point_encoding_len, point_scaled, point_sum, Point,
    UNCOMPRESSED_POINT_LEN,
};
use crate::scalar::{
    curve_order, is_inverse, lemma_scalar_below_order, scalar_from_be_bytes_mod_order,
    scalar_inverse, Scalar,
};

verus! {

broadcast use lemma_scalar_below_order, lemma_point_encoding_len;

/// An ECDSA signature `(r, s)`.
#[derive(Clone, Copy, Debug)]
pub struct Signature {
    pub r: Scalar,
    pub s: Scalar,
}

impl Signature {
    /// The signature `(r, s)`.
    pub fn new(r: Scalar, s: Scalar) -> (sig: Signature)
        ensures
            sig.r == r,
            sig.s == s,
    {
        Signature { r, s }
    }
}

impl PartialEq for Signature {
    fn eq(&self, other: &Self) -> (b: bool) {
        self.r == other.r && self.s == other.s
    }
}

impl PartialEqSpecImpl for Signature {
    open spec fn obeys_eq_spec() -> bool {
        true
    }

    open spec fn eq_spec(&self, other: &Self) -> bool {
        self.r@ == other.r@ && self.s@ == other.s@
    }
}

impl Eq for Signature {}

/// The scalar a 32-byte message hash stands for: the hash read big-endian,
/// reduced modulo the group order.
pub open spec fn message_value(message_hash: Seq<u8>) -> nat {
    be_value(message_hash) % curve_order()
}

/// The x-coordinate of an uncompressed point encoding, reduced modulo the group
/// order.
pub open spec fn x_coordinate_value(encoding: Seq<u8>) -> nat {
    be_value(encoding.subrange(1, 33)) % curve_order()
}

/// The x-coordinate scalar of a point depends on the x bytes of its encoding
/// alone; so a point and its negation (`0x04 || x || -y`) give the same value.
pub proof fn lemma_x_coordinate_depends_on_x_only(p: Seq<u8>, q: Seq<u8>)
    requires
        p.subrange(1, 33) == q.subrange(1, 33),
    ensures
        x_coordinate_value(p) == x_coordinate_value(q),
{
}

/// The `r` of a signature made with nonce `k`: the x-coordinate of `G * k`.
pub open spec fn nonce_r(k: nat) -> nat {
    x_coordinate_value(generator_mul(k))
}

/// The error `sign` returns for secret `x`, nonce `k` and message hash `h`, if any.
pub open spec fn signing_error(x: nat, k: nat, h: Seq<u8>) -> Option<Error> {
    if x == 0 || k == 0 || nonce_r(k) == 0 {
        Some(Error::ZeroNonce)
    } else if (message_value(h) + nonce_r(k) * x) % curve_order() == 0 {
        Some(Error::InvalidSignature)
    } else {
        None
    }
}

/// `(r, s)` is the ECDSA signature of `h` under secret `x` with nonce `k`:
/// `r` is the x-coordinate of `G*k`, and `k*s = h + r*x (mod q)`, neither zero.
pub open spec fn is_signature_of(x: nat, k: nat, h: Seq<u8>, r: nat, s: nat) -> bool {
    &&& r == nonce_r(k)
    &&& r != 0
    &&& s != 0
    &&& s < curve_order()
    &&& (k * s) % curve_order() == (message_value(h) + r * x) % curve_order()
}

/// What `verify` answers for public key `pk`, message hash `h` and signature
/// `(r, s)`: with `w = s^-1`, the point `G*(h*w) + pk*(r*w)` is not the identity
/// and its x-coordinate is `r`.
pub open spec fn verification_holds(pk: Seq<u8>, h: Seq<u8>, r: nat, s: nat) -> bool {
    if r == 0 || s == 0 {
        false
    } else {
        let w = scalar_inverse(s);
        let u1 = (message_value(h) * w) % curve_order();
        let u2 = (r * w) % curve_order();
        let candidate = point_sum(generator_mul(u1), point_scaled(pk, u2));
        candidate != identity_encoding() && x_coordinate_value(candidate) == r
    }
}

/// Whether `sign` fails, and how, depends on the message hash only through its
/// value modulo `q`: two hashes that are congruent are signed alike.
pub proof fn lemma_signing_error_depends_on_hash_value(x: nat, k: nat, h1: Seq<u8>, h2: Seq<u8>)
    requires
        be_value(h1) % curve_order() == be_value(h2) % curve_order(),
    ensures
        signing_error(x, k, h1) == signing_error(x, k, h2),
{
}

/// The identity has x-coordinate value zero.
proof fn lemma_identity_x_coordinate()
    ensures
        x_coordinate_value(identity_encoding()) == 0,
{
    let xs = identity_encoding().subrange(1, 33);
    assert forall|i: int| 0 <= i < xs.len() implies xs[i] == 0 by {}
    lemma_be_value_zero(xs);
}

/// With `c = (e + (r*x) mod q) mod q`, `s = k^-1 * c mod q` satisfies
/// `k*s = e + r*x (mod q)`, and `s` is zero exactly when `c` is.
proof fn lemma_signature_equation(k: nat, kinv: nat, e: nat, rx: nat, r: nat, x: nat, c: nat, s: nat)
    requires
        k < curve_order(),
        is_inverse(k, kinv),
        e < curve_order(),
        rx == (r * x) % curve_order(),
        c == (e + rx) % curve_order(),
        s == (kinv * c) % curve_order(),
    ensures
        c == (e + r * x) % curve_order(),
        (k * s) % curve_order() == c,
        s == 0 <==> c == 0,
{
    let q = curve_order() as int;
    vstd::arithmetic::div_mod::lemma_add_mod_noop_right(e as int, (r * x) as int, q);
    vstd::arithmetic::div_mod::lemma_mul_mod_noop_right(k as int, (kinv * c) as int, q);
    vstd::arithmetic::mul::lemma_mul_is_associative(k as int, kinv as int, c as int);
    vstd::arithmetic::div_mod::lemma_mul_mod_noop_left((k * kinv) as int, c as int, q);
    vstd::arithmetic::div_mod::lemma_small_mod(c, q as nat);
    assert((1 * c) == c);
    if s == 0 {
        assert((k * s) == 0) by (nonlinear_arith)
            requires
                s == 0,
        ;
        vstd::arithmetic::div_mod::lemma_small_mod(0, q as nat);
    }
    if c == 0 {
        assert((kinv * c) == 0) by (nonlinear_arith)
            requires
                c == 0,
        ;
        vstd::arithmetic::div_mod::lemma_small_mod(0, q as nat);
    }
}

/// The scalar combination checked by `verify` recovers the nonce: if
/// `k*s = e + r*x` and `s*w = 1 (mod q)`, then `e*w + x*(r*w) = k (mod q)`.
proof fn lemma_verification_recovers_nonce(x: nat, k: nat, e: nat, r: nat, s: nat, w: nat)
    requires
        k < curve_order(),
        (k * s) % curve_order() == (e + r * x) % curve_order(),
        (s * w) % curve_order() == 1,
    ensures
        ((e * w) % curve_order() + (x * ((r * w) % curve_order())) % curve_order())
            % curve_order() == k,
{
    let q = curve_order() as int;
    let c = (e + r * x) as int;
    vstd::arithmetic::div_mod::lemma_mul_mod_noop_right(x as int, (r * w) as int, q);
    vstd::arithmetic::div_mod::lemma_add_mod_noop((e * w) as int, (x * (r * w)) as int, q);
    assert((e * w) + x * (r * w) == c * w) by (nonlinear_arith)
        requires
            c == e + r * x,
    ;
    vstd::arithmetic::div_mod::lemma_mul_mod_noop_left(c, w as int, q);
    vstd::arithmetic::div_mod::lemma_mul_mod_noop_left((k * s) as int, w as int, q);
    vstd::arithmetic::mul::lemma_mul_is_associative(k as int, s as int, w as int);
    vstd::arithmetic::div_mod::lemma_mul_mod_noop_right(k as int, (s * w) as int, q);
    vstd::arithmetic::div_mod::lemma_small_mod(k, q as nat);
}

/// The scalar of a message hash: the hash read big-endian, reduced modulo `q`.
fn message_scalar(message_hash: &[u8; 32]) -> (e: Scalar)
    ensures
        e@ == message_value(message_hash@),
{
    scalar_from_be_bytes_mod_order(message_hash.as_slice())
}

/// The x-coordinate of `point` as a scalar (reduced modulo `q`); the identity
/// has none.
fn point_x_scalar(point: &Point) -> (r: Result<Scalar>)
    ensures
        r is Err <==> point@ == identity_encoding(),
        r is Err ==> r == Err::<Scalar, Error>(Error::InvalidNoncePoint),
        r matches Ok(v) ==> v@ == x_coordinate_value(point@),
{
    if point.is_zero() {
        return Err(Error::InvalidNoncePoint);
    }
    let encoded = point.to_uncompressed_bytes();
    let coordinate_len = (UNCOMPRESSED_POINT_LEN - 1) / 2;
    if encoded.len() < 1 + coordinate_len {
        return Err(Error::InvalidNoncePoint);
    }
    let mut x: Vec<u8> = Vec::new();
    let mut j: usize = 1;
    while j < 1 + coordinate_len
        invariant
            1 <= j <= 33,
            coordinate_len == 32,
            encoded@.len() == 65,
            x@ == encoded@.subrange(1, j as int),
        decreases 33 - j,
    {
        x.push(encoded[j]);
        j = j + 1;
        assert(x@ =~= encoded@.subrange(1, j as int));
    }
    Ok(scalar_from_be_bytes_mod_order(x.as_slice()))
}

/// Signs `message_hash` with `secret_key` and nonce `nonce`:
/// `r = x(G*k) mod q`, `s = k^-1 (h + r*x) mod q`.
///
/// Fails with `ZeroNonce` when the key, the nonce or `r` is zero, and with
/// `InvalidSignature` when `s` would be zero.
pub fn sign(secret_key: &Scalar, nonce: &Scalar, message_hash: &[u8; 32]) -> (res: Result<Signature>)
    ensures
        res is Err <==> signing_error(secret_key@, nonce@, message_hash@) is Some,
        res matches Err(e) ==> signing_error(secret_key@, nonce@, message_hash@) == Some(e),
        res matches Ok(sig) ==> {
            &&& is_signature_of(secret_key@, nonce@, message_hash@, sig.r@, sig.s@)
            &&& sig.s@ == (scalar_inverse(nonce@) * ((message_value(message_hash@) + sig.r@
                * secret_key@) % curve_order())) % curve_order()
        },
        // Success is owed, for every message hash, whenever the key, the nonce,
        // `r = x(G*k) mod q` and `h + r*x mod q` are all non-zero.
        ({
            let q = curve_order();
            let r = be_value(generator_mul(nonce@).subrange(1, 33)) % q;
            secret_key@ != 0 && nonce@ != 0 && r != 0 && ((be_value(message_hash@) % q) + r
                * secret_key@) % q != 0 ==> res is Ok
        }),
{
    if secret_key.is_zero() || nonce.is_zero() {
        return Err(Error::ZeroNonce);
    }
    let nonce_point = Point::generator_times(nonce);
    if nonce_point.is_zero() {
        return Err(Error::ZeroNonce);
    }
    let r = match point_x_scalar(&nonce_point) {
        Ok(r) => r,
        Err(e) => return Err(e),
    };
    if r.is_zero() {
        return Err(Error::ZeroNonce);
    }
    let e = message_scalar(message_hash);
    let nonce_inv = match nonce.invert() {
        Some(v) => v,
        None => return Err(Error::ZeroNonce),
    };
    let rx = r.times(secret_key);
    let c = e.plus(&rx);
    let s = nonce_inv.times(&c);
    proof {
        lemma_signature_equation(nonce@, nonce_inv@, e@, rx@, r@, secret_key@, c@, s@);
    }
    if s.is_zero() {
        return Err(Error::InvalidSignature);
    }
    Ok(Signature::new(r, s))
}

/// Checks an ECDSA signature of `message_hash` under `public_key`.
///
/// A signature with `r` or `s` zero is rejected (`Ok(false)`); so is one whose
/// recomputed point is the identity.
pub fn verify(public_key: &Point, message_hash: &[u8; 32], signature: &Signature) -> (res: Result<bool>)
    ensures
        res == Ok::<bool, Error>(
            verification_holds(public_key@, message_hash@, signature.r@, signature.s@),
        ),
        // A signature is accepted exactly when `r` and `s` are non-zero and, with
        // `w = s^-1`, the point `G*(h*w) + pk*(r*w)` is not the identity and its
        // x-coordinate modulo `q` is `r`.
        ({
            let q = curve_order();
            let r = signature.r@;
            let s = signature.s@;
            let w = scalar_inverse(s);
            let c = point_sum(
                generator_mul(((be_value(message_hash@) % q) * w) % q),
                point_scaled(public_key@, (r * w) % q),
            );
            res == Ok::<bool, Error>(true) <==> (r != 0 && s != 0 && c != identity_encoding()
                && be_value(c.subrange(1, 33)) % q == r)
        }),
        // Every signature that `sign` makes with secret `x` verifies under `G * x`.
        forall|x: nat, k: nat|
            #![trigger is_signature_of(x, k, message_hash@, signature.r@, signature.s@)]
            x < curve_order() && k < curve_order() && public_key@ == generator_mul(x)
                && is_signature_of(x, k, message_hash@, signature.r@, signature.s@)
                ==> res == Ok::<bool, Error>(true),
{
    proof {
        lemma_identity_x_coordinate();
    }
    if signature.r.is_zero() || signature.s.is_zero() {
        return Ok(false);
    }
    let s_inv = match signature.s.invert() {
        Some(v) => v,
        None => return Err(Error::InvalidSignature),
    };
    let e = message_scalar(message_hash);
    let u1 = e.times(&s_inv);
    let u2 = signature.r.times(&s_inv);
    let g_u1 = Point::generator_times(&u1);
    let pk_u2 = public_key.times(&u2);
    let candidate = g_u1.plus(&pk_u2);
    proof {
        assert forall|x: nat, k: nat|
            #![trigger is_signature_of(x, k, message_hash@, signature.r@, signature.s@)]
            x < curve_order() && k < curve_order() && public_key@ == generator_mul(x)
                && is_signature_of(x, k, message_hash@, signature.r@, signature.s@)
            implies candidate@ == generator_mul(k) by {
            lemma_verification_recovers_nonce(x, k, e@, signature.r@, signature.s@, s_inv@);
            assert(pk_u2@ == generator_mul((x * u2@) % curve_order()));
        }
    }
    if candidate.is_zero() {
        return Ok(false);
    }
    let candidate_r = match point_x_scalar(&candidate) {
        Ok(v) => v,
        Err(e) => return Err(e),
    };
    Ok(candidate_r == signature.r)
}

/// Signs `message_hash` with `secret_key`, using the aggregate nonce of a
/// presignature after checking that its nonce point is `G` times it.
pub fn sign_with_presignature(
    secret_key: &Scalar,
    presignature: &Presignature,
    message_hash: &[u8; 32],
) -> (res: Result<Signature>)
    ensures
        !presignature.consistent() ==> res == Err::<Signature, Error>(Error::InvalidNoncePoint),
        presignature.consistent() ==> {
            let k = presignature.aggregate_nonce@;
            &&& res is Err <==> signing_error(secret_key@, k, message_hash@) is Some
            &&& res matches Err(e) ==> signing_error(secret_key@, k, message_hash@) == Some(e)
            &&& res matches Ok(sig) ==> is_signature_of(
                secret_key@,
                k,
                message_hash@,
                sig.r@,
                sig.s@,
            )
        },
{
    let expected_nonce_point = Point::generator_times(&presignature.aggregate_nonce);
    if expected_nonce_point != presignature.nonce_point {
        return Err(Error::InvalidNoncePoint);
    }
    sign(secret_key, &presignature.aggregate_nonce, message_hash)
}

} // verus!
