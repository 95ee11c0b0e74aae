use vstd::prelude::*;
use vstd::arithmetic::power2::pow2;
use ark_bls12_381::{Bls12_381, Fq12, Fr, G1Projective, G2Projective};
use ark_ec::pairing::Pairing;
use ark_ec::PrimeGroup;
use ark_ff::{Field, PrimeField};

verus! {

// The elliptic-curve group, pairing and field arithmetic are consumed as a
// black-box capability. The generic ark types cannot be declared to the
// verifier directly (their trait bounds have no specification), so each kind
// of value is held opaquely in a wrapper struct, and the call wrappers state,
// over named results, exactly what each call computes.

/// A point of the first pairing group, held opaquely.
#[verifier::external_body]
pub struct G1Point(G1Projective);

impl Clone for G1Point {
    #[verifier::external_body]
    fn clone(&self) -> (r: Self)
        ensures
            r == *self,
    {
        G1Point(self.0)
    }
}

impl Copy for G1Point {

}

/// A point of the second pairing group, held opaquely.
#[verifier::external_body]
pub struct G2Point(G2Projective);

impl Clone for G2Point {
    #[verifier::external_body]
    fn clone(&self) -> (r: Self)
        ensures
            r == *self,
    {
        G2Point(self.0)
    }
}

impl Copy for G2Point {

}

/// An element of the pairing target field, held opaquely.
#[verifier::external_body]
pub struct GtElem(Fq12);

impl Clone for GtElem {
    #[verifier::external_body]
    fn clone(&self) -> (r: Self)
        ensures
            r == *self,
    {
        GtElem(self.0)
    }
}

impl Copy for GtElem {

}

/// An element of the scalar field of the curve, held opaquely.
#[verifier::external_body]
pub struct Scalar(Fr);

impl Clone for Scalar {
    #[verifier::external_body]
    fn clone(&self) -> (r: Self)
        ensures
            r == *self,
    {
        Scalar(self.0)
    }
}

impl Copy for Scalar {

}

/// The bilinear pairing of a G1 and a G2 point, as a partial function: it is
/// undefined (None) exactly when final exponentiation of the Miller loop
/// output has no value.
pub uninterp spec fn pairing_of(p: G1Point, q: G2Point) -> Option<GtElem>;

/// A target-field element raised to the canonical integer of a scalar-field
/// element.
pub uninterp spec fn gt_pow_of(b: GtElem, e: Scalar) -> GtElem;

/// A scalar-field element raised to a 128-bit integer exponent.
pub uninterp spec fn fr_pow_of(b: Scalar, e: u128) -> Scalar;

/// The multiplicative inverse of a nonzero scalar-field element.
pub uninterp spec fn fr_inv_of(b: Scalar) -> Scalar;

/// The scalar-field element standing for a 64-bit integer.
pub uninterp spec fn fr_of(n: u64) -> Scalar;

/// The canonical integer representative of a scalar-field element.
pub uninterp spec fn fr_int_of(b: Scalar) -> nat;

/// A G1 point multiplied by a scalar.
pub uninterp spec fn g1_mul_of(p: G1Point, s: Scalar) -> G1Point;

/// Whether two G1 points are the same point of the curve (projective
/// representations are compared as affine points).
pub uninterp spec fn g1_same_of(a: G1Point, b: G1Point) -> bool;

/// Relies on ark_ec's Pairing (multi_miller_loop and final_exponentiation):
/// the evaluation is a function of the two points alone, and yields a value
/// exactly when the Miller loop output is invertible.
#[verifier::external_body]
pub fn try_pairing(p: &G1Point, q: &G2Point) -> (r: Option<GtElem>)
    ensures
        r == pairing_of(*p, *q),
{
    let mlo = Bls12_381::multi_miller_loop([p.0], [q.0]);
    match Bls12_381::final_exponentiation(mlo) {
        Some(out) => Some(GtElem(out.0)),
        None => None,
    }
}

/// Relies on ark_ff's Field::pow on the pairing target field, with the
/// exponent taken as the canonical integer of a scalar-field element
/// (PrimeField::into_bigint): the result is a function of base and exponent.
#[verifier::external_body]
pub fn gt_pow(b: &GtElem, e: &Scalar) -> (r: GtElem)
    ensures
        r == gt_pow_of(*b, *e),
{
    GtElem(b.0.pow(e.0.into_bigint()))
}

/// Relies on ark_ff's Field::pow on the scalar field: raises `b` to the
/// integer `e`, handed over as little-endian 64-bit limbs. The width hint
/// `w` is an upper bound on the bit length of `e` and selects how many limbs
/// are handed over; exponents at or beyond 2^w are excluded, since a
/// truncating implementation may then be wrong. In a field, a power of a
/// nonzero element is nonzero.
#[verifier::external_body]
pub fn fr_pow(b: &Scalar, e: u128, w: u32) -> (r: Scalar)
    requires
        w >= 128 || (e as nat) < pow2(w as nat),
    ensures
        r == fr_pow_of(*b, e),
        *b != fr_of(0) ==> r != fr_of(0),
{
    if w <= 64 {
        Scalar(b.0.pow([e as u64]))
    } else {
        Scalar(b.0.pow([e as u64, (e >> 64) as u64]))
    }
}

/// Relies on ark_ff's Field::inverse, which is Some exactly on nonzero
/// elements; zero is excluded, so the value can be taken directly.
#[verifier::external_body]
pub fn fr_inverse(b: &Scalar) -> (r: Scalar)
    requires
        *b != fr_of(0),
    ensures
        r == fr_inv_of(*b),
{
    Scalar(b.0.inverse().unwrap())
}

/// Relies on Fr::from (u64), which embeds an integer modulo the scalar
/// modulus. The BLS12-381 scalar modulus exceeds 2^64, so distinct 64-bit
/// integers stand for distinct elements; in particular a nonzero integer
/// stands for a nonzero element.
#[verifier::external_body]
pub fn fr_from_u64(n: u64) -> (r: Scalar)
    ensures
        r == fr_of(n),
        n != 0 ==> r != fr_of(0),
{
    Scalar(Fr::from(n))
}

/// Relies on PrimeField::into_bigint: the canonical integer representative
/// of a scalar-field element, in [0, modulus), as four little-endian 64-bit
/// limbs.
#[verifier::external_body]
pub fn fr_limbs(b: &Scalar) -> (r: [u64; 4])
    ensures
        limbs_to_nat(r@) == fr_int_of(*b),
{
    b.0.into_bigint().0
}

/// The integer a little-endian sequence of 64-bit limbs stands for.
pub open spec fn limbs_to_nat(s: Seq<u64>) -> nat
    decreases s.len(),
{
    if s.len() == 0 {
        0
    } else {
        s[0] as nat + 0x1_0000_0000_0000_0000 * limbs_to_nat(s.skip(1))
    }
}

/// Relies on ark_ec's scalar multiplication of a projective G1 point by a
/// scalar-field element.
#[verifier::external_body]
pub fn g1_scalar_mul(p: &G1Point, s: &Scalar) -> (r: G1Point)
    ensures
        r == g1_mul_of(*p, *s),
{
    G1Point(p.0 * s.0)
}

/// A G2 point multiplied by a scalar.
pub uninterp spec fn g2_mul_of(q: G2Point, s: Scalar) -> G2Point;

/// Relies on ark_ec's scalar multiplication of a projective G2 point by a
/// scalar-field element.
#[verifier::external_body]
pub fn g2_scalar_mul(q: &G2Point, s: &Scalar) -> (r: G2Point)
    ensures
        r == g2_mul_of(*q, *s),
{
    G2Point(q.0 * s.0)
}

/// The fixed generator of the first pairing group. Relies on ark_ec's
/// PrimeGroup::generator.
#[verifier::external_body]
pub fn g1_generator() -> (r: G1Point) {
    G1Point(G1Projective::generator())
}

/// The fixed generator of the second pairing group. Relies on ark_ec's
/// PrimeGroup::generator.
#[verifier::external_body]
pub fn g2_generator() -> (r: G2Point) {
    G2Point(G2Projective::generator())
}

/// Relies on ark_ec's PartialEq for projective points, which compares the
/// points as affine points; the outcome is a function of the two values.
#[verifier::external_body]
pub fn g1_eq(a: &G1Point, b: &G1Point) -> (r: bool)
    ensures
        r == g1_same_of(*a, *b),
{
    a.0 == b.0
}

/// Relies on the derived PartialEq of the target-field tower: coefficients
/// are kept in canonical (reduced) form, so the comparison succeeds exactly
/// when the two elements are the same value.
#[verifier::external_body]
pub fn gt_eq(a: &GtElem, b: &GtElem) -> (r: bool)
    ensures
        r == (*a == *b),
{
    a.0 == b.0
}

} // verus!
