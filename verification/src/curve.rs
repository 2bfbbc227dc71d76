//! Points of the Pallas curve.
//!
//! The Pallas group has prime order q and is generated by its standard
//! generator G, so every point is k·G for exactly one k below q. A `Point`
//! holds the 32-byte compressed encoding of its point together with that k
//! as a ghost value, which is its view: adding points adds their views modulo
//! q, multiplying by a scalar multiplies them. The group arithmetic is done
//! by `pasta_curves`.
use crate::field::{fadd, fmul, le_value, scalar_modulus, Scalar};
use group::{Curve, Group, GroupEncoding};
use pasta_curves::pallas;
use vstd::prelude::*;

verus! {

/// The compressed encoding (`to_affine().to_bytes()`) of k·G, G being the
/// generator of the Pallas group (`pallas::Point::generator()`).
pub uninterp spec fn pallas_multiple(k: nat) -> Seq<u8>;

/// A point of the Pallas curve.
#[derive(Clone, Copy)]
pub struct Point {
    enc: [u8; 32],
    log: Ghost<nat>,
}

impl Point {
    #[verifier::type_invariant]
    spec fn encodes_multiple(self) -> bool {
        &&& self.log@ < scalar_modulus()
        &&& self.enc@ == pallas_multiple(self.log@)
    }
}

impl View for Point {
    type V = nat;

    /// The k below q such that the point is k·G.
    closed spec fn view(&self) -> nat {
        self.log@ % scalar_modulus()
    }
}

/// Every point is k·G for some k below q.
pub broadcast proof fn lemma_point_in_range(p: Point)
    ensures
        #[trigger] p@ < scalar_modulus(),
{
}

/// `pallas::Point::generator()`, encoded by `to_affine().to_bytes()`.
#[verifier::external_body]
fn generator_encoding() -> (r: [u8; 32])
    ensures
        r@ == pallas_multiple(1),
{
    pallas::Point::generator().to_affine().to_bytes()
}

/// Point addition (`pallas::Point + pallas::Point`) on two decoded points
/// (`GroupEncoding::from_bytes`), encoded again. As both are multiples of G,
/// the contract claims the multiple of G by the sum of their multipliers
/// modulo q, the order of G.
#[verifier::external_body]
fn sum_encoding(a: &Point, b: &Point) -> (r: [u8; 32])
    ensures
        r@ == pallas_multiple(fadd(a@, b@)),
{
    (pallas::Point::from_bytes(&a.enc).unwrap() + pallas::Point::from_bytes(&b.enc).unwrap()).to_affine().to_bytes()
}

/// Scalar multiplication (`pallas::Point * pallas::Scalar`) of a decoded point
/// by the scalar whose canonical representation is `s_repr`
/// (`PrimeField::from_repr`), encoded again. The contract claims the multiple
/// of G by the product of the multipliers modulo q.
#[verifier::external_body]
fn product_encoding(p: &Point, s_repr: &[u8; 32]) -> (r: [u8; 32])
    requires
        le_value(s_repr@) < scalar_modulus(),
    ensures
        r@ == pallas_multiple(fmul(p@, le_value(s_repr@))),
{
    let s = <pallas::Scalar as ff::PrimeField>::from_repr(*s_repr).unwrap();
    (pallas::Point::from_bytes(&p.enc).unwrap() * s).to_affine().to_bytes()
}

/// Point equality (`pallas::Point == pallas::Point`) on two decoded points.
/// Since G has order q, two multiples of G by integers below q are the same
/// point exactly when the integers are equal.
#[verifier::external_body]
fn decoded_equal(a: &Point, b: &Point) -> (r: bool)
    ensures
        r == (a@ == b@),
{
    pallas::Point::from_bytes(&a.enc).unwrap() == pallas::Point::from_bytes(&b.enc).unwrap()
}

impl Point {
    /// The standard generator G of the Pallas group.
    pub fn generator() -> (r: Point)
        ensures
            r@ == 1,
    {
        let enc = generator_encoding();
        Point { enc, log: Ghost(1) }
    }

    /// Point addition.
    pub fn add(&self, other: &Point) -> (r: Point)
        ensures
            r@ == fadd(self@, other@),
    {
        let enc = sum_encoding(self, other);
        Point { enc, log: Ghost(fadd(self@, other@)) }
    }

    /// Multiplication of the point by a scalar.
    pub fn mul(&self, s: &Scalar) -> (r: Point)
        ensures
            r@ == fmul(self@, s@),
    {
        let s_repr = s.to_repr();
        proof {
            crate::field::lemma_scalar_in_range(*s);
        }
        let enc = product_encoding(self, &s_repr);
        Point { enc, log: Ghost(fmul(self@, s@)) }
    }

    /// Whether two points are the same point of the curve.
    pub fn equals(&self, other: &Point) -> (r: bool)
        ensures
            r == (self@ == other@),
    {
        decoded_equal(self, other)
    }

    /// The 32-byte compressed encoding of the point.
    pub fn to_bytes(&self) -> (r: [u8; 32])
        ensures
            r@ == pallas_multiple(self@),
    {
        proof {
            use_type_invariant(self);
            vstd::arithmetic::div_mod::lemma_small_mod(self.log@, scalar_modulus());
        }
        self.enc
    }
}

} // verus!
