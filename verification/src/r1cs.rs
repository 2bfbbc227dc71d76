//! Relaxed R1CS with a single constraint row, and its Nova-style fold.
//!
//! A relaxed instance (u, E, z) satisfies the row (a, b, c) when
//! (a·z)(b·z) = u(c·z) + E in F_q. Folding two instances with a challenge ρ
//! gives u = u1 + ρu2, E = E1 + ρT + ρ²E2 and z = z1 + ρz2, where T is the
//! cross term a1b2 + a2b1 − u1c2 − u2c1.
use crate::field::{
    congruent, fadd, fmul, fold_value, fsub, lemma_congruent_diff, lemma_congruent_eq, lemma_congruent_refl,
    lemma_congruent_zero_add, lemma_congruent_zero_mul,
    lemma_fadd_congruent, lemma_fmul_congruent, lemma_fsub_congruent, lemma_modulus_bounds,
    lemma_scalar_in_range, scalar_modulus, Scalar,
};
use vstd::prelude::*;

verus! {

broadcast use lemma_scalar_in_range;

/// The integers that a sequence of field elements stands for.
pub open spec fn values(s: Seq<Scalar>) -> Seq<nat> {
    s.map_values(|x: Scalar| x@)
}

/// The smaller of two lengths.
pub open spec fn min_len(m: nat, n: nat) -> nat {
    if m <= n {
        m
    } else {
        n
    }
}

/// The inner product of the first n entries of v and z, in F_q.
pub open spec fn dot_prefix(v: Seq<nat>, z: Seq<nat>, n: nat) -> nat
    decreases n,
{
    if n == 0 {
        0
    } else {
        fadd(dot_prefix(v, z, (n - 1) as nat), fmul(v[n - 1], z[n - 1]))
    }
}

/// The inner product of v and z over the length of the shorter one, in F_q.
pub open spec fn dot_spec(v: Seq<nat>, z: Seq<nat>) -> nat {
    dot_prefix(v, z, min_len(v.len(), z.len()))
}

/// E1 + ρT + ρ²E2.
pub open spec fn fold_e(e1: nat, t: nat, e2: nat, rho: nat) -> nat {
    fadd(fadd(e1, fmul(rho, t)), fmul(fmul(rho, rho), e2))
}

/// z1 + ρz2, entry by entry, over the length of the shorter one.
pub open spec fn fold_z(z1: Seq<nat>, z2: Seq<nat>, rho: nat) -> Seq<nat> {
    Seq::new(min_len(z1.len(), z2.len()), |i: int| fadd(z1[i], fmul(rho, z2[i])))
}

/// All entries are field elements (below q).
pub open spec fn in_field(s: Seq<nat>) -> bool {
    forall|i: int| 0 <= i < s.len() ==> #[trigger] s[i] < scalar_modulus()
}

/// One constraint row: (a·z)(b·z) = u(c·z) + E.
pub struct R1CS {
    pub a: Vec<Scalar>,
    pub b: Vec<Scalar>,
    pub c: Vec<Scalar>,
}

/// A relaxed R1CS instance with its witness.
pub struct Rlx {
    pub u: Scalar,
    pub e: Scalar,
    pub z: Vec<Scalar>,
}

impl Rlx {
    /// The integers that the witness stands for.
    pub open spec fn zv(&self) -> Seq<nat> {
        values(self.z@)
    }
}

impl R1CS {
    pub open spec fn az_spec(&self, z: Seq<nat>) -> nat {
        dot_spec(values(self.a@), z)
    }

    pub open spec fn bz_spec(&self, z: Seq<nat>) -> nat {
        dot_spec(values(self.b@), z)
    }

    pub open spec fn cz_spec(&self, z: Seq<nat>) -> nat {
        dot_spec(values(self.c@), z)
    }

    /// (a·z)(b·z) = u(c·z) + E.
    pub open spec fn satisfied_spec(&self, u: nat, e: nat, z: Seq<nat>) -> bool {
        fmul(self.az_spec(z), self.bz_spec(z)) == fadd(fmul(u, self.cz_spec(z)), e)
    }

    /// The cross term a1·b2 + a2·b1 − u1·c2 − u2·c1 of two instances.
    pub open spec fn cross_term_spec(&self, u1: nat, z1: Seq<nat>, u2: nat, z2: Seq<nat>) -> nat {
        fsub(
            fsub(
                fadd(fmul(self.az_spec(z1), self.bz_spec(z2)), fmul(self.az_spec(z2), self.bz_spec(z1))),
                fmul(u1, self.cz_spec(z2)),
            ),
            fmul(u2, self.cz_spec(z1)),
        )
    }

    /// The row of the circuit w1 · w2 = x over z = [x, w1, w2].
    pub open spec fn is_product_circuit(&self) -> bool {
        &&& values(self.a@) == seq![0nat, 1nat, 0nat]
        &&& values(self.b@) == seq![0nat, 0nat, 1nat]
        &&& values(self.c@) == seq![1nat, 0nat, 0nat]
    }

    /// The circuit w1 · w2 = x over z = [x, w1, w2].
    pub fn new() -> (r: R1CS)
        ensures
            r.is_product_circuit(),
    {
        let r = R1CS {
            a: vec![Scalar::zero(), Scalar::one(), Scalar::zero()],
            b: vec![Scalar::zero(), Scalar::zero(), Scalar::one()],
            c: vec![Scalar::one(), Scalar::zero(), Scalar::zero()],
        };
        assert(values(r.a@) =~= seq![0nat, 1nat, 0nat]);
        assert(values(r.b@) =~= seq![0nat, 0nat, 1nat]);
        assert(values(r.c@) =~= seq![1nat, 0nat, 0nat]);
        r
    }

    /// The inner product of v and z in F_q, over the length of the shorter one.
    pub fn dot(v: &[Scalar], z: &[Scalar]) -> (s: Scalar)
        ensures
            s@ == dot_spec(values(v@), values(z@)),
    {
        let n = if v.len() <= z.len() {
            v.len()
        } else {
            z.len()
        };
        let mut acc = Scalar::zero();
        let mut i: usize = 0;
        while i < n
            invariant
                n == min_len(v@.len(), z@.len()),
                i <= n,
                acc@ == dot_prefix(values(v@), values(z@), i as nat),
            decreases n - i,
        {
            let prod = v[i].mul(&z[i]);
            acc = acc.add(&prod);
            assert(values(v@)[i as int] == v@[i as int]@);
            assert(values(z@)[i as int] == z@[i as int]@);
            i += 1;
        }
        acc
    }

    pub fn az(&self, z: &[Scalar]) -> (s: Scalar)
        ensures
            s@ == self.az_spec(values(z@)),
    {
        Self::dot(self.a.as_slice(), z)
    }

    pub fn bz(&self, z: &[Scalar]) -> (s: Scalar)
        ensures
            s@ == self.bz_spec(values(z@)),
    {
        Self::dot(self.b.as_slice(), z)
    }

    pub fn cz(&self, z: &[Scalar]) -> (s: Scalar)
        ensures
            s@ == self.cz_spec(values(z@)),
    {
        Self::dot(self.c.as_slice(), z)
    }
}

/// Whether the relaxed instance (u, E, z) satisfies the row r.
pub fn satisfied(r: &R1CS, u: Scalar, e: Scalar, z: &[Scalar]) -> (ok: bool)
    ensures
        ok == r.satisfied_spec(u@, e@, values(z@)),
{
    let lhs = r.az(z).mul(&r.bz(z));
    let rhs = u.mul(&r.cz(z)).add(&e);
    lhs.equals(&rhs)
}

/// Fold two relaxed instances with the challenge rho; also returns the cross term.
pub fn fold(r: &R1CS, i1: &Rlx, i2: &Rlx, rho: Scalar) -> (res: (Rlx, Scalar))
    ensures
        res.1@ == r.cross_term_spec(i1.u@, i1.zv(), i2.u@, i2.zv()),
        res.0.u@ == fold_value(i1.u@, i2.u@, rho@),
        res.0.e@ == fold_e(i1.e@, res.1@, i2.e@, rho@),
        res.0.zv() == fold_z(i1.zv(), i2.zv(), rho@),
{
    let a1 = r.az(i1.z.as_slice());
    let b1 = r.bz(i1.z.as_slice());
    let c1 = r.cz(i1.z.as_slice());
    let a2 = r.az(i2.z.as_slice());
    let b2 = r.bz(i2.z.as_slice());
    let c2 = r.cz(i2.z.as_slice());
    let t = a1.mul(&b2).add(&a2.mul(&b1)).sub(&i1.u.mul(&c2)).sub(&i2.u.mul(&c1));
    let u = i1.u.add(&rho.mul(&i2.u));
    let e = i1.e.add(&rho.mul(&t)).add(&rho.mul(&rho).mul(&i2.e));
    let n = if i1.z.len() <= i2.z.len() {
        i1.z.len()
    } else {
        i2.z.len()
    };
    let mut z: Vec<Scalar> = Vec::new();
    let mut i: usize = 0;
    while i < n
        invariant
            n == min_len(i1.z@.len(), i2.z@.len()),
            i <= n,
            z@.len() == i,
            forall|j: int|
                0 <= j < i ==> #[trigger] values(z@)[j] == fadd(
                    i1.zv()[j],
                    fmul(rho@, i2.zv()[j]),
                ),
        decreases n - i,
    {
        let zi = i1.z[i].add(&rho.mul(&i2.z[i]));
        let ghost before = z@;
        z.push(zi);
        proof {
            assert forall|j: int| 0 <= j < i + 1 implies #[trigger] values(z@)[j] == fadd(
                i1.zv()[j],
                fmul(rho@, i2.zv()[j]),
            ) by {
                if j == i {
                    assert(values(z@)[j] == zi@);
                } else {
                    assert(z@[j] == before[j]);
                    assert(values(before)[j] == before[j]@);
                    assert(values(z@)[j] == z@[j]@);
                }
            }
        }
        i += 1;
    }
    let folded = Rlx { u, e, z };
    assert(folded.zv() =~= fold_z(i1.zv(), i2.zv(), rho@));
    (folded, t)
}

/// Folding is linear in each witness: the inner product with z1 + ρz2 is
/// congruent to (v·z1) + ρ(v·z2), over any common prefix.
pub proof fn lemma_dot_prefix_fold(v: Seq<nat>, z1: Seq<nat>, z2: Seq<nat>, rho: nat, n: nat)
    requires
        n <= v.len(),
        n <= z1.len(),
        n <= z2.len(),
    ensures
        congruent(
            dot_prefix(v, fold_z(z1, z2, rho), n) as int,
            dot_prefix(v, z1, n) as int + rho as int * dot_prefix(v, z2, n) as int,
        ),
    decreases n,
{
    if n > 0 {
        let k = (n - 1) as nat;
        let zf = fold_z(z1, z2, rho);
        lemma_dot_prefix_fold(v, z1, z2, rho, k);
        let d1: int = dot_prefix(v, z1, k) as int;
        let d2: int = dot_prefix(v, z2, k) as int;
        let x: int = v[k as int] as int;
        let y1: int = z1[k as int] as int;
        let y2: int = z2[k as int] as int;
        let r: int = rho as int;
        lemma_congruent_refl(r);
        lemma_congruent_refl(y1);
        lemma_congruent_refl(y2);
        lemma_congruent_refl(x);
        lemma_fmul_congruent(rho, z2[k as int], r, y2);
        lemma_fadd_congruent(z1[k as int], fmul(rho, z2[k as int]), y1, r * y2);
        lemma_fmul_congruent(v[k as int], zf[k as int], x, y1 + r * y2);
        lemma_fadd_congruent(
            dot_prefix(v, zf, k),
            fmul(v[k as int], zf[k as int]),
            d1 + r * d2,
            x * (y1 + r * y2),
        );
        lemma_fmul_congruent(v[k as int], z1[k as int], x, y1);
        lemma_fadd_congruent(dot_prefix(v, z1, k), fmul(v[k as int], z1[k as int]), d1, x * y1);
        lemma_fmul_congruent(v[k as int], z2[k as int], x, y2);
        lemma_fadd_congruent(dot_prefix(v, z2, k), fmul(v[k as int], z2[k as int]), d2, x * y2);
        let f1: int = dot_prefix(v, z1, n) as int;
        let f2: int = dot_prefix(v, z2, n) as int;
        assert(congruent(r * f2, r * (d2 + x * y2))) by {
            let m = scalar_modulus() as int;
            vstd::arithmetic::div_mod::lemma_mul_mod_noop_right(r, f2, m);
            vstd::arithmetic::div_mod::lemma_mul_mod_noop_right(r, d2 + x * y2, m);
        }
        assert(congruent(f1 + r * f2, d1 + x * y1 + r * (d2 + x * y2))) by {
            let m = scalar_modulus() as int;
            vstd::arithmetic::div_mod::lemma_add_mod_noop(f1, r * f2, m);
            vstd::arithmetic::div_mod::lemma_add_mod_noop(d1 + x * y1, r * (d2 + x * y2), m);
        }
        assert(d1 + r * d2 + x * (y1 + r * y2) == d1 + x * y1 + r * (d2 + x * y2))
            by (nonlinear_arith);
        assert(dot_prefix(v, zf, n) == fadd(dot_prefix(v, zf, k), fmul(v[k as int], zf[k as int])));
        assert(congruent(dot_prefix(v, zf, n) as int, d1 + r * d2 + x * (y1 + r * y2)));
    } else {
        assert(rho as int * 0 == 0);
    }
}

/// (x1 + ρx2)(y1 + ρy2) = x1y1 + ρ(x1y2 + x2y1) + ρ²x2y2.
proof fn lemma_expand_folded_product(x1: int, x2: int, y1: int, y2: int, p: int)
    ensures
        (x1 + p * x2) * (y1 + p * y2) == x1 * y1 + p * (x1 * y2 + x2 * y1) + (p * p) * (x2 * y2),
{
    assert((x1 + p * x2) * (y1 + p * y2) == x1 * (y1 + p * y2) + (p * x2) * (y1 + p * y2))
        by (nonlinear_arith);
    assert(x1 * (y1 + p * y2) == x1 * y1 + p * (x1 * y2)) by (nonlinear_arith);
    assert((p * x2) * (y1 + p * y2) == p * (x2 * y1) + (p * p) * (x2 * y2)) by (nonlinear_arith);
    assert(p * (x1 * y2) + p * (x2 * y1) == p * (x1 * y2 + x2 * y1)) by (nonlinear_arith);
}

/// Inner products over a prefix only read the entries of that prefix.
proof fn lemma_dot_prefix_agree(v1: Seq<nat>, z1: Seq<nat>, v2: Seq<nat>, z2: Seq<nat>, n: nat)
    requires
        n <= v1.len() && n <= z1.len() && n <= v2.len() && n <= z2.len(),
        forall|i: int| 0 <= i < n ==> v1[i] == v2[i] && z1[i] == z2[i],
    ensures
        dot_prefix(v1, z1, n) == dot_prefix(v2, z2, n),
    decreases n,
{
    if n > 0 {
        lemma_dot_prefix_agree(v1, z1, v2, z2, (n - 1) as nat);
    }
}

/// The inner product of empty vectors is zero.
pub proof fn lemma_dot_empty(z: Seq<nat>)
    ensures
        dot_spec(Seq::empty(), z) == 0,
        dot_spec(z, Seq::empty()) == 0,
{
}

/// Extending two vectors of one length by one entry each adds the product of
/// the new entries to their inner product, whatever the length.
pub proof fn lemma_dot_extend(v: Seq<nat>, z: Seq<nat>, x: nat, y: nat)
    requires
        v.len() == z.len(),
    ensures
        dot_spec(v.push(x), z.push(y)) == fadd(dot_spec(v, z), fmul(x, y)),
{
    let n = v.len();
    lemma_dot_prefix_agree(v.push(x), z.push(y), v, z, n);
    assert(v.push(x)[n as int] == x);
    assert(z.push(y)[n as int] == y);
}

/// Only the common length counts: entries beyond the shorter vector are ignored.
pub proof fn lemma_dot_common_length(v: Seq<nat>, z: Seq<nat>)
    ensures
        dot_spec(v, z) == dot_spec(
            v.subrange(0, min_len(v.len(), z.len()) as int),
            z.subrange(0, min_len(v.len(), z.len()) as int),
        ),
{
    let n = min_len(v.len(), z.len());
    lemma_dot_prefix_agree(
        v,
        z,
        v.subrange(0, n as int),
        z.subrange(0, n as int),
        n,
    );
}

/// Folding preserves relaxed satisfaction: if (u1, E1, z1) and (u2, E2, z2)
/// satisfy the row r and the witnesses have one length, then for every
/// challenge ρ the folded instance (u1 + ρu2, E1 + ρT + ρ²E2, z1 + ρz2),
/// T being their cross term, satisfies r as well.
pub proof fn lemma_fold_preserves_satisfaction(
    r: R1CS,
    u1: nat,
    e1: nat,
    z1: Seq<nat>,
    u2: nat,
    e2: nat,
    z2: Seq<nat>,
    rho: nat,
)
    requires
        z1.len() == z2.len(),
        r.satisfied_spec(u1, e1, z1),
        r.satisfied_spec(u2, e2, z2),
    ensures
        r.satisfied_spec(
            fold_value(u1, u2, rho),
            fold_e(e1, r.cross_term_spec(u1, z1, u2, z2), e2, rho),
            fold_z(z1, z2, rho),
        ),
{
    let zf = fold_z(z1, z2, rho);
    let (va, vb, vc) = (values(r.a@), values(r.b@), values(r.c@));
    lemma_dot_prefix_fold(va, z1, z2, rho, min_len(va.len(), z1.len()));
    lemma_dot_prefix_fold(vb, z1, z2, rho, min_len(vb.len(), z1.len()));
    lemma_dot_prefix_fold(vc, z1, z2, rho, min_len(vc.len(), z1.len()));
    let (a1, b1, c1) = (r.az_spec(z1) as int, r.bz_spec(z1) as int, r.cz_spec(z1) as int);
    let (a2, b2, c2) = (r.az_spec(z2) as int, r.bz_spec(z2) as int, r.cz_spec(z2) as int);
    let (af, bf, cf) = (r.az_spec(zf), r.bz_spec(zf), r.cz_spec(zf));
    let (x1, x2, y1, y2, p) = (u1 as int, u2 as int, e1 as int, e2 as int, rho as int);
    lemma_congruent_refl(a1);
    lemma_congruent_refl(b1);
    lemma_congruent_refl(c1);
    lemma_congruent_refl(a2);
    lemma_congruent_refl(b2);
    lemma_congruent_refl(c2);
    lemma_congruent_refl(x1);
    lemma_congruent_refl(x2);
    lemma_congruent_refl(y1);
    lemma_congruent_refl(y2);
    lemma_congruent_refl(p);
    // the folded u
    lemma_fmul_congruent(rho, u2, p, x2);
    lemma_fadd_congruent(u1, fmul(rho, u2), x1, p * x2);
    let uf = fold_value(u1, u2, rho);
    // the cross term
    let t_int = a1 * b2 + a2 * b1 - x1 * c2 - x2 * c1;
    let (ra1, rb1, rc1) = (r.az_spec(z1), r.bz_spec(z1), r.cz_spec(z1));
    let (ra2, rb2, rc2) = (r.az_spec(z2), r.bz_spec(z2), r.cz_spec(z2));
    lemma_fmul_congruent(ra1, rb2, a1, b2);
    lemma_fmul_congruent(ra2, rb1, a2, b1);
    lemma_fadd_congruent(fmul(ra1, rb2), fmul(ra2, rb1), a1 * b2, a2 * b1);
    lemma_fmul_congruent(u1, rc2, x1, c2);
    lemma_fsub_congruent(
        fadd(fmul(ra1, rb2), fmul(ra2, rb1)),
        fmul(u1, rc2),
        a1 * b2 + a2 * b1,
        x1 * c2,
    );
    lemma_fmul_congruent(u2, rc1, x2, c1);
    let t = r.cross_term_spec(u1, z1, u2, z2);
    lemma_fsub_congruent(
        fsub(fadd(fmul(ra1, rb2), fmul(ra2, rb1)), fmul(u1, rc2)),
        fmul(u2, rc1),
        a1 * b2 + a2 * b1 - x1 * c2,
        x2 * c1,
    );
    // the folded E
    lemma_fmul_congruent(rho, t, p, t_int);
    lemma_fadd_congruent(e1, fmul(rho, t), y1, p * t_int);
    lemma_fmul_congruent(rho, rho, p, p);
    lemma_fmul_congruent(fmul(rho, rho), e2, p * p, y2);
    lemma_fadd_congruent(fadd(e1, fmul(rho, t)), fmul(fmul(rho, rho), e2), y1 + p * t_int, (p * p) * y2);
    let ef = fold_e(e1, t, e2, rho);
    let e_int = y1 + p * t_int + (p * p) * y2;
    // both sides of the folded row
    let l_int = (a1 + p * a2) * (b1 + p * b2);
    let r_int = (x1 + p * x2) * (c1 + p * c2) + e_int;
    lemma_fmul_congruent(af, bf, a1 + p * a2, b1 + p * b2);
    lemma_fmul_congruent(uf, cf, x1 + p * x2, c1 + p * c2);
    lemma_fadd_congruent(fmul(uf, cf), ef, (x1 + p * x2) * (c1 + p * c2), e_int);
    // the two satisfied rows
    lemma_fmul_congruent(ra1, rb1, a1, b1);
    lemma_fmul_congruent(u1, rc1, x1, c1);
    lemma_fadd_congruent(fmul(u1, rc1), e1, x1 * c1, y1);
    lemma_congruent_diff(a1 * b1, x1 * c1 + y1);
    lemma_fmul_congruent(ra2, rb2, a2, b2);
    lemma_fmul_congruent(u2, rc2, x2, c2);
    lemma_fadd_congruent(fmul(u2, rc2), e2, x2 * c2, y2);
    lemma_congruent_diff(a2 * b2, x2 * c2 + y2);
    let k1 = a1 * b1 - (x1 * c1 + y1);
    let k2 = a2 * b2 - (x2 * c2 + y2);
    lemma_congruent_zero_mul(p * p, k2);
    lemma_congruent_zero_add(k1, (p * p) * k2);
    let pp = p * p;
    let s1 = a1 * b2 + a2 * b1;
    let s2 = x1 * c2 + x2 * c1;
    lemma_expand_folded_product(a1, a2, b1, b2, p);
    lemma_expand_folded_product(x1, x2, c1, c2, p);
    assert(p * t_int == p * s1 - p * s2) by (nonlinear_arith)
        requires
            t_int == s1 - s2,
    ;
    assert(pp * k2 == pp * (a2 * b2) - pp * (x2 * c2) - pp * y2) by (nonlinear_arith)
        requires
            k2 == a2 * b2 - (x2 * c2 + y2),
    ;
    assert(l_int - r_int == k1 + pp * k2);
    lemma_congruent_diff(l_int, r_int);
    let lhs = fmul(af, bf);
    let rhs = fadd(fmul(uf, cf), ef);
    assert(congruent(lhs as int, rhs as int));
    lemma_congruent_eq(lhs, rhs);
}

/// For the circuit of `R1CS::new`, a·z, b·z and c·z pick w1, w2 and x out of
/// z = [x, w1, w2]; so the standard instance (u = 1, E = 0) is satisfied
/// exactly when w1 · w2 = x in F_q.
pub proof fn lemma_product_circuit(r: R1CS, z: Seq<nat>)
    requires
        r.is_product_circuit(),
        z.len() == 3,
    ensures
        r.az_spec(z) == z[1] % scalar_modulus(),
        r.bz_spec(z) == z[2] % scalar_modulus(),
        r.cz_spec(z) == z[0] % scalar_modulus(),
        r.satisfied_spec(1, 0, z) <==> fmul(z[1], z[2]) == z[0] % scalar_modulus(),
{
    lemma_modulus_bounds();
    let m = scalar_modulus();
    let (va, vb, vc) = (values(r.a@), values(r.b@), values(r.c@));
    assert(va[0] == 0 && va[1] == 1 && va[2] == 0 && va.len() == 3);
    assert(vb[0] == 0 && vb[1] == 0 && vb[2] == 1 && vb.len() == 3);
    assert(vc[0] == 1 && vc[1] == 0 && vc[2] == 0 && vc.len() == 3);
    assert(dot_prefix(va, z, 0) == 0);
    assert(dot_prefix(vb, z, 0) == 0);
    assert(dot_prefix(vc, z, 0) == 0);
    assert(dot_prefix(va, z, 1) == 0);
    assert(dot_prefix(va, z, 2) == z[1] % m);
    assert(dot_prefix(va, z, 3) == z[1] % m);
    assert(dot_prefix(vb, z, 1) == 0);
    assert(dot_prefix(vb, z, 2) == 0);
    assert(dot_prefix(vb, z, 3) == z[2] % m);
    assert(dot_prefix(vc, z, 1) == z[0] % m);
    assert(dot_prefix(vc, z, 2) == z[0] % m);
    assert(dot_prefix(vc, z, 3) == z[0] % m);
    vstd::arithmetic::div_mod::lemma_mod_twice(z[0] as int, m as int);
    vstd::arithmetic::div_mod::lemma_mod_twice(z[1] as int, m as int);
    vstd::arithmetic::div_mod::lemma_mod_twice(z[2] as int, m as int);
    vstd::arithmetic::div_mod::lemma_mul_mod_noop_general(z[1] as int, z[2] as int, m as int);
}

/// A tampered error term is caught: if (u, E, z) satisfies a row, then
/// (u, E + 1, z) does not.
pub proof fn lemma_tampered_error_rejected(r: R1CS, u: nat, e: nat, z: Seq<nat>)
    requires
        r.satisfied_spec(u, e, z),
    ensures
        !r.satisfied_spec(u, fadd(e, 1), z),
{
    let x = fmul(u, r.cz_spec(z));
    let (xi, ei): (int, int) = (x as int, e as int);
    lemma_congruent_refl(xi);
    lemma_congruent_refl(ei);
    lemma_congruent_refl(1);
    lemma_fadd_congruent(e, 1, ei, 1);
    lemma_fadd_congruent(x, e, xi, ei);
    lemma_fadd_congruent(x, fadd(e, 1), xi, ei + 1);
    if r.satisfied_spec(u, fadd(e, 1), z) {
        lemma_congruent_diff(xi + ei, xi + (ei + 1));
        assert(congruent(-1, 0));
    }
}

/// A tampered public input is caught: for the circuit of `R1CS::new`, if
/// (u, E, [x, w1, w2]) is satisfied and u is not zero, then
/// (u, E, [x + 1, w1, w2]) is not.
pub proof fn lemma_tampered_input_rejected(r: R1CS, u: nat, e: nat, z: Seq<nat>)
    requires
        r.is_product_circuit(),
        z.len() == 3,
        r.satisfied_spec(u, e, z),
        u % scalar_modulus() != 0,
    ensures
        !r.satisfied_spec(u, e, z.update(0, fadd(z[0], 1))),
{
    let zb = z.update(0, fadd(z[0], 1));
    lemma_product_circuit(r, z);
    lemma_product_circuit(r, zb);
    let m = scalar_modulus() as int;
    let (ui, ei, z0): (int, int, int) = (u as int, e as int, z[0] as int);
    vstd::arithmetic::div_mod::lemma_mod_twice(z0 + 1, m);
    vstd::arithmetic::div_mod::lemma_mod_twice(z0, m);
    let c = r.cz_spec(z);
    let cb = r.cz_spec(zb);
    lemma_congruent_refl(ui);
    lemma_congruent_refl(ei);
    assert(congruent(c as int, z0));
    assert(congruent(cb as int, z0 + 1));
    lemma_fmul_congruent(u, c, ui, z0);
    lemma_fmul_congruent(u, cb, ui, z0 + 1);
    lemma_fadd_congruent(fmul(u, c), e, ui * z0, ei);
    lemma_fadd_congruent(fmul(u, cb), e, ui * (z0 + 1), ei);
    if r.satisfied_spec(u, e, zb) {
        assert(ui * (z0 + 1) == ui * z0 + ui) by (nonlinear_arith);
        lemma_congruent_diff(ui * z0 + ui + ei, ui * z0 + ei);
        assert(congruent(ui, 0));
    }
}

} // verus!
