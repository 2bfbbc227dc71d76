//! Pedersen commitments over Pallas, their folding, and the Fiat-Shamir
//! challenge drawn from a list of points.
//!
//! Contracts speak of points by their views: the multiplier k of the
//! generator G with the point equal to k·G.
use crate::curve::{lemma_point_in_range, pallas_multiple, Point};
use crate::field::{
    congruent, fadd, fmul, fold_value, lemma_congruent_eq, lemma_congruent_refl,
    lemma_fadd_congruent, lemma_fmul_congruent, lemma_modulus_bounds, lemma_scalar_in_range,
    scalar_modulus, Scalar,
};
use crate::hash::{h2s, h2s_spec, sha3_512, sha3_512_digest};
use crate::text::append_bytes;
use vstd::prelude::*;

verus! {

broadcast use {lemma_scalar_in_range, lemma_point_in_range};

/// value·G + r·H, for generators of views g and h.
pub open spec fn commit_spec(g: nat, h: nat, value: nat, r: nat) -> nat {
    fadd(fmul(g, value), fmul(h, r))
}

/// a·G + b·H + s·R, for generators of views g, h and rg.
pub open spec fn commit3_spec(g: nat, h: nat, rg: nat, a: nat, b: nat, s: nat) -> nat {
    fadd(fadd(fmul(g, a), fmul(h, b)), fmul(rg, s))
}

/// C1 + ρ·C2: the fold of two commitments.
pub open spec fn fold_point(c1: nat, c2: nat, rho: nat) -> nat {
    fadd(c1, fmul(c2, rho))
}

/// The encodings of a list of points, one after the other.
pub open spec fn encodings(points: Seq<Point>) -> Seq<u8>
    decreases points.len(),
{
    if points.len() == 0 {
        Seq::empty()
    } else {
        encodings(points.drop_last()) + pallas_multiple(points.last()@)
    }
}

/// The challenge drawn from a label and a list of points: the SHA3-512
/// digest of the label followed by the points' encodings, hashed to a
/// field element.
pub open spec fn fs_spec(label: Seq<u8>, points: Seq<Point>) -> nat {
    h2s_spec(sha3_512(label + encodings(points)))
}

/// The Pedersen commitment value·G + r·H.
pub fn commit(g: Point, h: Point, value: Scalar, r: Scalar) -> (c: Point)
    ensures
        c@ == commit_spec(g@, h@, value@, r@),
{
    g.mul(&value).add(&h.mul(&r))
}

/// The Pedersen commitment a·G + b·H + s·R.
pub fn commit3(g: Point, h: Point, r_gen: Point, a: Scalar, b: Scalar, s: Scalar) -> (c: Point)
    ensures
        c@ == commit3_spec(g@, h@, r_gen@, a@, b@, s@),
{
    g.mul(&a).add(&h.mul(&b)).add(&r_gen.mul(&s))
}

/// The compressed encoding of a commitment.
pub fn commit_bytes(p: Point) -> (b: [u8; 32])
    ensures
        b@ == pallas_multiple(p@),
{
    p.to_bytes()
}

/// The fold C1 + ρ·C2 of two commitments.
pub fn fold_commitments(c1: &Point, c2: &Point, rho: &Scalar) -> (c: Point)
    ensures
        c@ == fold_point(c1@, c2@, rho@),
{
    c1.add(&c2.mul(rho))
}

/// The Fiat-Shamir challenge over a label and a list of points (see `fs_spec`).
pub fn fs(label: &[u8], points: &[Point]) -> (rho: Scalar)
    ensures
        rho@ == fs_spec(label@, points@),
{
    let mut transcript: Vec<u8> = Vec::new();
    append_bytes(&mut transcript, label);
    let mut i: usize = 0;
    assert(points@.subrange(0, 0) =~= Seq::<Point>::empty());
    assert(transcript@ =~= label@ + encodings(points@.subrange(0, 0)));
    while i < points.len()
        invariant
            i <= points@.len(),
            transcript@ == label@ + encodings(points@.subrange(0, i as int)),
        decreases points@.len() - i,
    {
        let b = commit_bytes(points[i]);
        append_bytes(&mut transcript, &b);
        proof {
            let pre = points@.subrange(0, i + 1);
            assert(pre.drop_last() =~= points@.subrange(0, i as int));
            assert(pre.last() == points@[i as int]);
            assert(transcript@ =~= label@ + encodings(pre));
        }
        i += 1;
    }
    assert(points@.subrange(0, points@.len() as int) =~= points@);
    let digest = sha3_512_digest(transcript.as_slice());
    h2s(&digest)
}

/// Committing to (1, 0) gives the value generator itself, and to (0, 1) the
/// blinding generator.
pub proof fn lemma_commit_basis(g: nat, h: nat)
    ensures
        commit_spec(g, h, 1, 0) == g % scalar_modulus(),
        commit_spec(g, h, 0, 1) == h % scalar_modulus(),
{
    lemma_modulus_bounds();
    vstd::arithmetic::div_mod::lemma_mod_twice(g as int, scalar_modulus() as int);
    vstd::arithmetic::div_mod::lemma_mod_twice(h as int, scalar_modulus() as int);
}

/// Committing to (1, 0, 0), (0, 1, 0) and (0, 0, 1) gives the three generators.
pub proof fn lemma_commit3_basis(g: nat, h: nat, rg: nat)
    ensures
        commit3_spec(g, h, rg, 1, 0, 0) == g % scalar_modulus(),
        commit3_spec(g, h, rg, 0, 1, 0) == h % scalar_modulus(),
        commit3_spec(g, h, rg, 0, 0, 1) == rg % scalar_modulus(),
{
    lemma_modulus_bounds();
    vstd::arithmetic::div_mod::lemma_mod_twice(g as int, scalar_modulus() as int);
    vstd::arithmetic::div_mod::lemma_mod_twice(h as int, scalar_modulus() as int);
    vstd::arithmetic::div_mod::lemma_mod_twice(rg as int, scalar_modulus() as int);
}

/// Pedersen commitments are additive: the commitment to the sum of two
/// openings is the sum of their commitments.
pub proof fn lemma_commit_additive(g: nat, h: nat, v1: nat, r1: nat, v2: nat, r2: nat)
    ensures
        commit_spec(g, h, fadd(v1, v2), fadd(r1, r2)) == fadd(
            commit_spec(g, h, v1, r1),
            commit_spec(g, h, v2, r2),
        ),
{
    lemma_modulus_bounds();
    let (gi, hi, a1, b1, a2, b2) = (g as int, h as int, v1 as int, r1 as int, v2 as int, r2 as int);
    lemma_congruent_refl(gi);
    lemma_congruent_refl(hi);
    lemma_congruent_refl(a1);
    lemma_congruent_refl(b1);
    lemma_congruent_refl(a2);
    lemma_congruent_refl(b2);
    lemma_fadd_congruent(v1, v2, a1, a2);
    lemma_fadd_congruent(r1, r2, b1, b2);
    lemma_fmul_congruent(g, fadd(v1, v2), gi, a1 + a2);
    lemma_fmul_congruent(h, fadd(r1, r2), hi, b1 + b2);
    lemma_fadd_congruent(
        fmul(g, fadd(v1, v2)),
        fmul(h, fadd(r1, r2)),
        gi * (a1 + a2),
        hi * (b1 + b2),
    );
    lemma_fmul_congruent(g, v1, gi, a1);
    lemma_fmul_congruent(h, r1, hi, b1);
    lemma_fadd_congruent(fmul(g, v1), fmul(h, r1), gi * a1, hi * b1);
    lemma_fmul_congruent(g, v2, gi, a2);
    lemma_fmul_congruent(h, r2, hi, b2);
    lemma_fadd_congruent(fmul(g, v2), fmul(h, r2), gi * a2, hi * b2);
    lemma_fadd_congruent(
        commit_spec(g, h, v1, r1),
        commit_spec(g, h, v2, r2),
        gi * a1 + hi * b1,
        gi * a2 + hi * b2,
    );
    assert(gi * (a1 + a2) + hi * (b1 + b2) == gi * a1 + hi * b1 + (gi * a2 + hi * b2))
        by (nonlinear_arith);
    let lhs = commit_spec(g, h, fadd(v1, v2), fadd(r1, r2));
    let rhs = fadd(commit_spec(g, h, v1, r1), commit_spec(g, h, v2, r2));
    assert(congruent(lhs as int, rhs as int));
    lemma_congruent_eq(lhs, rhs);
}

/// The challenge over no points is the scalar of the label's digest.
pub proof fn lemma_fs_no_points(label: Seq<u8>)
    ensures
        fs_spec(label, Seq::empty()) == h2s_spec(sha3_512(label)),
{
    assert(label + encodings(Seq::<Point>::empty()) =~= label);
}

/// Appending a point to the list appends its encoding to the hashed
/// transcript: every point, the last included, enters the challenge.
pub proof fn lemma_fs_append(label: Seq<u8>, points: Seq<Point>, p: Point)
    ensures
        fs_spec(label, points.push(p)) == h2s_spec(
            sha3_512(label + encodings(points) + pallas_multiple(p@)),
        ),
{
    let ps = points.push(p);
    assert(ps.drop_last() =~= points);
    assert(ps.last() == p);
    assert(label + encodings(ps) =~= label + encodings(points) + pallas_multiple(p@));
}

/// x·(y1 + ρy2) = x·y1 + ρ·(x·y2).
proof fn lemma_scale_folded(x: int, y1: int, y2: int, p: int)
    ensures
        x * (y1 + p * y2) == x * y1 + p * (x * y2),
{
    assert(x * (y1 + p * y2) == x * y1 + x * (p * y2)) by (nonlinear_arith);
    assert(x * (p * y2) == p * (x * y2)) by (nonlinear_arith);
}

/// (a + b)·ρ = ρ·a + ρ·b.
proof fn lemma_scale_sum(a: int, b: int, p: int)
    ensures
        (a + b) * p == p * a + p * b,
{
    assert((a + b) * p == p * a + p * b) by (nonlinear_arith);
}

/// A commitment to x1 + ρx2 under one generator: congruent to the sum of the
/// commitment to x1 and ρ times the commitment to x2.
proof fn lemma_term_fold(g: nat, x1: nat, x2: nat, rho: nat)
    ensures
        congruent(
            fmul(g, fold_value(x1, x2, rho)) as int,
            (g * x1 + rho * (g * x2)) as int,
        ),
{
    let (gi, a, b, p): (int, int, int, int) = (g as int, x1 as int, x2 as int, rho as int);
    lemma_congruent_refl(gi);
    lemma_congruent_refl(a);
    lemma_congruent_refl(b);
    lemma_congruent_refl(p);
    lemma_fmul_congruent(rho, x2, p, b);
    lemma_fadd_congruent(x1, fmul(rho, x2), a, p * b);
    lemma_fmul_congruent(g, fold_value(x1, x2, rho), gi, a + p * b);
    lemma_scale_folded(gi, a, b, p);
}

/// Pedersen folding (two generators): folding the commitments C1 = v1·G + r1·H
/// and C2 = v2·G + r2·H with any challenge ρ gives the commitment to the
/// folded opening (v1 + ρv2, r1 + ρr2).
pub proof fn lemma_commit_fold(g: nat, h: nat, v1: nat, r1: nat, v2: nat, r2: nat, rho: nat)
    ensures
        fold_point(commit_spec(g, h, v1, r1), commit_spec(g, h, v2, r2), rho) == commit_spec(
            g,
            h,
            fold_value(v1, v2, rho),
            fold_value(r1, r2, rho),
        ),
{
    lemma_modulus_bounds();
    let (gi, hi, p) = (g as int, h as int, rho as int);
    let (a1, b1, a2, b2) = (v1 as int, r1 as int, v2 as int, r2 as int);
    let c1 = commit_spec(g, h, v1, r1);
    let c2 = commit_spec(g, h, v2, r2);
    lemma_congruent_refl(gi);
    lemma_congruent_refl(hi);
    lemma_congruent_refl(p);
    lemma_congruent_refl(a1);
    lemma_congruent_refl(b1);
    lemma_congruent_refl(a2);
    lemma_congruent_refl(b2);
    // the left-hand side
    lemma_fmul_congruent(g, v1, gi, a1);
    lemma_fmul_congruent(h, r1, hi, b1);
    lemma_fadd_congruent(fmul(g, v1), fmul(h, r1), gi * a1, hi * b1);
    lemma_fmul_congruent(g, v2, gi, a2);
    lemma_fmul_congruent(h, r2, hi, b2);
    lemma_fadd_congruent(fmul(g, v2), fmul(h, r2), gi * a2, hi * b2);
    lemma_fmul_congruent(c2, rho, gi * a2 + hi * b2, p);
    lemma_fadd_congruent(c1, fmul(c2, rho), gi * a1 + hi * b1, (gi * a2 + hi * b2) * p);
    lemma_scale_sum(gi * a2, hi * b2, p);
    // the right-hand side
    lemma_term_fold(g, v1, v2, rho);
    lemma_term_fold(h, r1, r2, rho);
    lemma_fadd_congruent(
        fmul(g, fold_value(v1, v2, rho)),
        fmul(h, fold_value(r1, r2, rho)),
        gi * a1 + p * (gi * a2),
        hi * b1 + p * (hi * b2),
    );
    let lhs = fold_point(c1, c2, rho);
    let rhs = commit_spec(g, h, fold_value(v1, v2, rho), fold_value(r1, r2, rho));
    assert(congruent(lhs as int, rhs as int));
    lemma_congruent_eq(lhs, rhs);
}

/// Pedersen folding (three generators): folding C1 = a1·G + b1·H + s1·R and
/// C2 = a2·G + b2·H + s2·R with any challenge ρ gives the commitment to the
/// folded opening (a1 + ρa2, b1 + ρb2, s1 + ρs2).
pub proof fn lemma_commit3_fold(
    g: nat,
    h: nat,
    rg: nat,
    a1: nat,
    b1: nat,
    s1: nat,
    a2: nat,
    b2: nat,
    s2: nat,
    rho: nat,
)
    ensures
        fold_point(commit3_spec(g, h, rg, a1, b1, s1), commit3_spec(g, h, rg, a2, b2, s2), rho)
            == commit3_spec(
            g,
            h,
            rg,
            fold_value(a1, a2, rho),
            fold_value(b1, b2, rho),
            fold_value(s1, s2, rho),
        ),
{
    lemma_modulus_bounds();
    let (gi, hi, ri, p) = (g as int, h as int, rg as int, rho as int);
    let (x1, y1, w1, x2, y2, w2) = (a1 as int, b1 as int, s1 as int, a2 as int, b2 as int, s2 as int);
    let c1 = commit3_spec(g, h, rg, a1, b1, s1);
    let c2 = commit3_spec(g, h, rg, a2, b2, s2);
    lemma_congruent_refl(gi);
    lemma_congruent_refl(hi);
    lemma_congruent_refl(ri);
    lemma_congruent_refl(p);
    lemma_congruent_refl(x1);
    lemma_congruent_refl(y1);
    lemma_congruent_refl(w1);
    lemma_congruent_refl(x2);
    lemma_congruent_refl(y2);
    lemma_congruent_refl(w2);
    // the left-hand side
    lemma_fmul_congruent(g, a1, gi, x1);
    lemma_fmul_congruent(h, b1, hi, y1);
    lemma_fmul_congruent(rg, s1, ri, w1);
    lemma_fadd_congruent(fmul(g, a1), fmul(h, b1), gi * x1, hi * y1);
    lemma_fadd_congruent(fadd(fmul(g, a1), fmul(h, b1)), fmul(rg, s1), gi * x1 + hi * y1, ri * w1);
    lemma_fmul_congruent(g, a2, gi, x2);
    lemma_fmul_congruent(h, b2, hi, y2);
    lemma_fmul_congruent(rg, s2, ri, w2);
    lemma_fadd_congruent(fmul(g, a2), fmul(h, b2), gi * x2, hi * y2);
    lemma_fadd_congruent(fadd(fmul(g, a2), fmul(h, b2)), fmul(rg, s2), gi * x2 + hi * y2, ri * w2);
    let e2 = gi * x2 + hi * y2 + ri * w2;
    lemma_fmul_congruent(c2, rho, e2, p);
    lemma_fadd_congruent(c1, fmul(c2, rho), gi * x1 + hi * y1 + ri * w1, e2 * p);
    lemma_scale_sum(gi * x2 + hi * y2, ri * w2, p);
    lemma_scale_sum(gi * x2, hi * y2, p);
    // the right-hand side
    lemma_term_fold(g, a1, a2, rho);
    lemma_term_fold(h, b1, b2, rho);
    lemma_term_fold(rg, s1, s2, rho);
    lemma_fadd_congruent(
        fmul(g, fold_value(a1, a2, rho)),
        fmul(h, fold_value(b1, b2, rho)),
        gi * x1 + p * (gi * x2),
        hi * y1 + p * (hi * y2),
    );
    lemma_fadd_congruent(
        fadd(fmul(g, fold_value(a1, a2, rho)), fmul(h, fold_value(b1, b2, rho))),
        fmul(rg, fold_value(s1, s2, rho)),
        gi * x1 + p * (gi * x2) + (hi * y1 + p * (hi * y2)),
        ri * w1 + p * (ri * w2),
    );
    let lhs = fold_point(c1, c2, rho);
    let rhs = commit3_spec(
        g,
        h,
        rg,
        fold_value(a1, a2, rho),
        fold_value(b1, b2, rho),
        fold_value(s1, s2, rho),
    );
    assert(congruent(lhs as int, rhs as int));
    lemma_congruent_eq(lhs, rhs);
}

/// Opening a three-generator commitment to a1 + 1 in place of a1 changes the
/// commitment, as long as the generator G is not the identity.
pub proof fn lemma_commit3_binds_first(g: nat, h: nat, rg: nat, a: nat, b: nat, s: nat)
    requires
        g % scalar_modulus() != 0,
    ensures
        commit3_spec(g, h, rg, fadd(a, 1), b, s) != commit3_spec(g, h, rg, a, b, s),
{
    lemma_modulus_bounds();
    let (gi, hi, ri, x, y, w) = (g as int, h as int, rg as int, a as int, b as int, s as int);
    lemma_congruent_refl(gi);
    lemma_congruent_refl(hi);
    lemma_congruent_refl(ri);
    lemma_congruent_refl(x);
    lemma_congruent_refl(y);
    lemma_congruent_refl(w);
    lemma_congruent_refl(1);
    lemma_fadd_congruent(a, 1, x, 1);
    lemma_fmul_congruent(g, fadd(a, 1), gi, x + 1);
    lemma_fmul_congruent(g, a, gi, x);
    lemma_fmul_congruent(h, b, hi, y);
    lemma_fmul_congruent(rg, s, ri, w);
    lemma_fadd_congruent(fmul(g, fadd(a, 1)), fmul(h, b), gi * (x + 1), hi * y);
    lemma_fadd_congruent(fmul(g, a), fmul(h, b), gi * x, hi * y);
    lemma_fadd_congruent(fadd(fmul(g, fadd(a, 1)), fmul(h, b)), fmul(rg, s), gi * (x + 1) + hi * y, ri * w);
    lemma_fadd_congruent(fadd(fmul(g, a), fmul(h, b)), fmul(rg, s), gi * x + hi * y, ri * w);
    if commit3_spec(g, h, rg, fadd(a, 1), b, s) == commit3_spec(g, h, rg, a, b, s) {
        assert(gi * (x + 1) == gi * x + gi) by (nonlinear_arith);
        crate::field::lemma_congruent_diff(gi * x + gi + hi * y + ri * w, gi * x + hi * y + ri * w);
        assert(congruent(gi, 0));
    }
}

/// Adding a point of nonzero view to the first of two folded commitments
/// changes the fold.
pub proof fn lemma_fold_shift_detected(c1: nat, d: nat, c2: nat, rho: nat)
    requires
        d % scalar_modulus() != 0,
    ensures
        fold_point(fadd(c1, d), c2, rho) != fold_point(c1, c2, rho),
{
    lemma_modulus_bounds();
    let (x, di, t) = (c1 as int, d as int, fmul(c2, rho) as int);
    lemma_congruent_refl(x);
    lemma_congruent_refl(di);
    lemma_congruent_refl(t);
    lemma_fadd_congruent(c1, d, x, di);
    lemma_fadd_congruent(fadd(c1, d), fmul(c2, rho), x + di, t);
    lemma_fadd_congruent(c1, fmul(c2, rho), x, t);
    if fold_point(fadd(c1, d), c2, rho) == fold_point(c1, c2, rho) {
        crate::field::lemma_congruent_diff(x + di + t, x + t);
        assert(congruent(di, 0));
    }
}

} // verus!
