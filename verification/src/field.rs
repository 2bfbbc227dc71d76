//! The scalar field of the Pallas curve, F_q.
//!
//! A `Scalar` holds the canonical 32-byte little-endian representation of an
//! element of F_q; its view is the integer it stands for, always below q.
//! The arithmetic itself is done by `pasta_curves`; the contracts here state
//! it as arithmetic modulo q.
use ff::{Field, PrimeField};
use pasta_curves::pallas;
use vstd::arithmetic::div_mod::*;
use vstd::arithmetic::power::*;
use vstd::prelude::*;

verus! {

/// q, the prime order of the Pallas group and the modulus of its scalar field.
pub open spec fn scalar_modulus() -> nat {
    0x40000000000000000000000000000000224698fc0994a8dd8c46eb2100000001nat
}

/// The integer that a little-endian byte string stands for.
pub open spec fn le_value(b: Seq<u8>) -> nat
    decreases b.len(),
{
    if b.len() == 0 {
        0
    } else {
        b[0] as nat + 256 * le_value(b.drop_first())
    }
}

/// The n-byte little-endian encoding of v (modulo 256^n).
pub open spec fn le_bytes(v: nat, n: nat) -> Seq<u8>
    decreases n,
{
    if n == 0 {
        Seq::empty()
    } else {
        seq![(v % 256) as u8] + le_bytes(v / 256, (n - 1) as nat)
    }
}

/// The n-byte encoding of v has n bytes and stands for v reduced modulo 256^n.
pub proof fn lemma_le_bytes_value(v: nat, n: nat)
    ensures
        le_bytes(v, n).len() == n,
        le_value(le_bytes(v, n)) == v % (pow(256, n) as nat),
    decreases n,
{
    reveal(pow);
    if n == 0 {
    } else {
        let k = (n - 1) as nat;
        lemma_le_bytes_value(v / 256, k);
        let b = le_bytes(v, n);
        assert(b.drop_first() =~= le_bytes(v / 256, k));
        vstd::arithmetic::power::lemma_pow_positive(256, k);
        lemma_breakdown(v as int, 256, pow(256, k));
        assert(pow(256, n) == 256 * pow(256, k));
    }
}

/// A byte string is the encoding of the integer it stands for.
pub proof fn lemma_le_bytes_of_value(b: Seq<u8>)
    ensures
        b == le_bytes(le_value(b), b.len()),
    decreases b.len(),
{
    if b.len() > 0 {
        let r = le_value(b.drop_first());
        lemma_le_bytes_of_value(b.drop_first());
        lemma_fundamental_div_mod_converse(le_value(b) as int, 256, r as int, b[0] as int);
        assert(b =~= seq![b[0]] + b.drop_first());
    }
}

/// Addition in F_q.
pub open spec fn fadd(a: nat, b: nat) -> nat {
    (a + b) % scalar_modulus()
}

/// Multiplication in F_q.
pub open spec fn fmul(a: nat, b: nat) -> nat {
    (a * b) % scalar_modulus()
}

/// Subtraction in F_q.
pub open spec fn fsub(a: nat, b: nat) -> nat {
    ((a - b) % (scalar_modulus() as int)) as nat
}

/// x1 + ρx2: how folding with the challenge ρ combines two values.
pub open spec fn fold_value(x1: nat, x2: nat, rho: nat) -> nat {
    fadd(x1, fmul(rho, x2))
}

pub proof fn lemma_modulus_bounds()
    ensures
        scalar_modulus() > 0x1_0000_0000_0000_0000,
        scalar_modulus() > 1,
{
}

/// The value of a concatenation: the second part is shifted by the length of the first.
pub proof fn lemma_le_value_concat(a: Seq<u8>, b: Seq<u8>)
    ensures
        le_value(a + b) == le_value(a) + pow(256, a.len()) * le_value(b),
    decreases a.len(),
{
    if a.len() == 0 {
        assert(a + b =~= b);
        reveal(pow);
    } else {
        lemma_le_value_concat(a.drop_first(), b);
        assert((a + b).drop_first() =~= a.drop_first() + b);
        assert(pow(256, a.len()) == 256 * pow(256, a.drop_first().len())) by {
            reveal(pow);
        }
        let p = pow(256, a.drop_first().len());
        let x = le_value(a.drop_first());
        let y = le_value(b);
        assert(256 * (x + p * y) == 256 * x + (256 * p) * y) by (nonlinear_arith);
    }
}

/// x and y are congruent modulo q.
pub open spec fn congruent(x: int, y: int) -> bool {
    x % (scalar_modulus() as int) == y % (scalar_modulus() as int)
}

pub proof fn lemma_congruent_refl(x: int)
    ensures
        congruent(x, x),
{
}

/// A field sum is congruent to the integer sum of anything congruent to its operands.
pub proof fn lemma_fadd_congruent(a: nat, b: nat, x: int, y: int)
    requires
        congruent(a as int, x),
        congruent(b as int, y),
    ensures
        congruent(fadd(a, b) as int, x + y),
{
    let m = scalar_modulus() as int;
    lemma_mod_twice(a + b as int, m);
    lemma_add_mod_noop(a as int, b as int, m);
    lemma_add_mod_noop(x, y, m);
}

/// A field product is congruent to the integer product of anything congruent to its operands.
pub proof fn lemma_fmul_congruent(a: nat, b: nat, x: int, y: int)
    requires
        congruent(a as int, x),
        congruent(b as int, y),
    ensures
        congruent(fmul(a, b) as int, x * y),
{
    let m = scalar_modulus() as int;
    lemma_mod_twice(a * b as int, m);
    lemma_mul_mod_noop_general(a as int, b as int, m);
    lemma_mul_mod_noop_general(x, y, m);
}

/// A field difference is congruent to the integer difference of anything congruent to its operands.
pub proof fn lemma_fsub_congruent(a: nat, b: nat, x: int, y: int)
    requires
        congruent(a as int, x),
        congruent(b as int, y),
    ensures
        congruent(fsub(a, b) as int, x - y),
{
    let m = scalar_modulus() as int;
    lemma_mod_bound(a - b, m);
    lemma_mod_twice(a - b, m);
    lemma_sub_mod_noop(a as int, b as int, m);
    lemma_sub_mod_noop(x, y, m);
}

/// Two field elements (integers below q) that are congruent are equal.
pub proof fn lemma_congruent_eq(a: nat, b: nat)
    requires
        a < scalar_modulus(),
        b < scalar_modulus(),
        congruent(a as int, b as int),
    ensures
        a == b,
{
    lemma_small_mod(a, scalar_modulus());
    lemma_small_mod(b, scalar_modulus());
}

/// What is congruent to zero stays so when multiplied.
pub proof fn lemma_congruent_zero_mul(k: int, x: int)
    requires
        congruent(x, 0),
    ensures
        congruent(k * x, 0),
{
    let m = scalar_modulus() as int;
    lemma_mul_mod_noop_right(k, x, m);
}

/// Congruence of x and y is congruence of x - y and zero.
pub proof fn lemma_congruent_diff(x: int, y: int)
    ensures
        congruent(x, y) <==> congruent(x - y, 0),
{
    lemma_mod_equivalence(x, y, scalar_modulus() as int);
}

/// Sums of terms congruent to zero are congruent to zero.
pub proof fn lemma_congruent_zero_add(x: int, y: int)
    requires
        congruent(x, 0),
        congruent(y, 0),
    ensures
        congruent(x + y, 0),
{
    lemma_add_mod_noop(x, y, scalar_modulus() as int);
}

/// An element of the Pallas scalar field, held in its canonical representation.
#[derive(Clone, Copy)]
pub struct Scalar {
    repr: [u8; 32],
}

impl Scalar {
    #[verifier::type_invariant]
    spec fn canonical(self) -> bool {
        le_value(self.repr@) < scalar_modulus()
    }
}

impl View for Scalar {
    type V = nat;

    closed spec fn view(&self) -> nat {
        le_value(self.repr@) % scalar_modulus()
    }
}

/// The element of F_q that a `u64` stands for: `Fq::from(u64)`, in its
/// canonical form (`PrimeField::to_repr`). The contract claims that the
/// representation is the little-endian encoding of the same integer.
#[verifier::external_body]
fn repr_from_u64(v: u64) -> (r: [u8; 32])
    ensures
        le_value(r@) == v,
{
    pallas::Scalar::from(v).to_repr()
}

/// Whether 32 bytes are the canonical representation of a field element:
/// `Fq::from_repr`, which succeeds exactly on the little-endian encodings of
/// integers below q.
#[verifier::external_body]
fn repr_is_canonical(bytes: &[u8; 32]) -> (r: bool)
    ensures
        r == (le_value(bytes@) < scalar_modulus()),
{
    bool::from(pallas::Scalar::from_repr(*bytes).is_some())
}

/// `Fq + Fq`; the contract claims the sum modulo q.
#[verifier::external_body]
fn repr_add(a: &Scalar, b: &Scalar) -> (r: [u8; 32])
    ensures
        le_value(r@) == fadd(a@, b@),
{
    (pallas::Scalar::from_repr(a.repr).unwrap() + pallas::Scalar::from_repr(b.repr).unwrap()).to_repr()
}

/// `Fq - Fq`; the contract claims the difference modulo q.
#[verifier::external_body]
fn repr_sub(a: &Scalar, b: &Scalar) -> (r: [u8; 32])
    ensures
        le_value(r@) == fsub(a@, b@),
{
    (pallas::Scalar::from_repr(a.repr).unwrap() - pallas::Scalar::from_repr(b.repr).unwrap()).to_repr()
}

/// `Fq * Fq`; the contract claims the product modulo q.
#[verifier::external_body]
fn repr_mul(a: &Scalar, b: &Scalar) -> (r: [u8; 32])
    ensures
        le_value(r@) == fmul(a@, b@),
{
    (pallas::Scalar::from_repr(a.repr).unwrap() * pallas::Scalar::from_repr(b.repr).unwrap()).to_repr()
}

/// `Fq == Fq`; the contract claims that it compares the elements.
#[verifier::external_body]
fn repr_eq(a: &Scalar, b: &Scalar) -> (r: bool)
    ensures
        r == (a@ == b@),
{
    pallas::Scalar::from_repr(a.repr).unwrap() == pallas::Scalar::from_repr(b.repr).unwrap()
}

impl Scalar {
    /// The field element that an unsigned integer stands for (`F::from(u64)`).
    pub fn from_u64(v: u64) -> (r: Scalar)
        ensures
            r@ == v,
    {
        proof {
            lemma_modulus_bounds();
        }
        let repr = repr_from_u64(v);
        Scalar { repr }
    }

    /// The additive identity.
    pub fn zero() -> (r: Scalar)
        ensures
            r@ == 0,
    {
        Scalar::from_u64(0)
    }

    /// The multiplicative identity.
    pub fn one() -> (r: Scalar)
        ensures
            r@ == 1,
    {
        Scalar::from_u64(1)
    }

    /// The element whose canonical representation is `bytes`, if it is one.
    pub fn from_repr(bytes: [u8; 32]) -> (r: Option<Scalar>)
        ensures
            r.is_some() == (le_value(bytes@) < scalar_modulus()),
            r.is_some() ==> r.unwrap()@ == le_value(bytes@),
    {
        if repr_is_canonical(&bytes) {
            Some(Scalar { repr: bytes })
        } else {
            None
        }
    }

    /// The canonical little-endian representation (`PrimeField::to_repr`).
    pub fn to_repr(&self) -> (r: [u8; 32])
        ensures
            le_value(r@) == self@,
            r@ == le_bytes(self@, 32),
    {
        proof {
            use_type_invariant(self);
            lemma_small_mod(le_value(self.repr@), scalar_modulus());
            lemma_le_bytes_of_value(self.repr@);
        }
        self.repr
    }

    pub fn add(&self, other: &Scalar) -> (r: Scalar)
        ensures
            r@ == fadd(self@, other@),
    {
        let repr = repr_add(self, other);
        Scalar { repr }
    }

    pub fn sub(&self, other: &Scalar) -> (r: Scalar)
        ensures
            r@ == fsub(self@, other@),
    {
        let repr = repr_sub(self, other);
        Scalar { repr }
    }

    pub fn mul(&self, other: &Scalar) -> (r: Scalar)
        ensures
            r@ == fmul(self@, other@),
    {
        let repr = repr_mul(self, other);
        Scalar { repr }
    }

    pub fn equals(&self, other: &Scalar) -> (r: bool)
        ensures
            r == (self@ == other@),
    {
        repr_eq(self, other)
    }
}

/// Every scalar stands for an integer below q.
pub broadcast proof fn lemma_scalar_in_range(s: Scalar)
    ensures
        #[trigger] s@ < scalar_modulus(),
{
}

} // verus!
