//! Folding of two Pedersen commitments on Pallas.
//!
//! C1 = a1·G + b1·H + s1·R and C2 = a2·G + b2·H + s2·R are folded with the
//! challenge ρ drawn from both commitments; the fold C1 + ρ·C2 is checked
//! against the commitment to the folded opening, and a tampered opening is
//! checked to be caught.
use crate::commitment::{
    commit3, commit3_spec, fold_commitments, fold_point, fs, fs_spec, lemma_commit3_binds_first,
    lemma_commit3_fold,
};
use crate::curve::{lemma_point_in_range, Point};
use crate::field::{
    fadd, fmul, fold_value, le_bytes, lemma_modulus_bounds, lemma_scalar_in_range, scalar_modulus,
    Scalar,
};
use crate::hash::{h2s, h2s_spec, sha3_512, sha3_512_digest};
use crate::text::{
    append_bytes, bool_chars, str_bytes, decimal_chars, hex_chars, push_bool, push_decimal, push_hex,
};
use vstd::arithmetic::div_mod::lemma_small_mod;
use vstd::prelude::*;

verus! {

broadcast use {lemma_scalar_in_range, lemma_point_in_range};

/// Everything the Pedersen folding run computes.
pub struct PedersenFold {
    /// The generator G.
    pub g: Point,
    /// H = h2s("QSOL_H_GEN_v1")·G.
    pub h: Point,
    /// R = h2s("QSOL_R_GEN_v1")·G.
    pub r_gen: Point,
    /// C1 = 3·G + 5·H + s1·R.
    pub c1: Point,
    /// C2 = 7·G + 11·H + s2·R.
    pub c2: Point,
    /// The challenge drawn from C1 and C2.
    pub rho: Scalar,
    /// C1 + ρ·C2.
    pub c_folded: Point,
    /// The commitment to the folded opening.
    pub c_computed: Point,
    pub a_folded: Scalar,
    pub b_folded: Scalar,
    pub s_folded: Scalar,
    /// Whether the fold equals the commitment to the folded opening.
    pub fold_valid: bool,
    /// Whether the commitment to a tampered opening differs from the fold.
    pub tamper_detected: bool,
    /// The SHA3-512 digest that anchors the folded opening and the two verdicts.
    pub evidence_hash: [u8; 64],
}

/// 1 for true, 0 for false.
pub open spec fn flag_byte(b: bool) -> u8 {
    if b {
        1
    } else {
        0
    }
}

/// SHA3-512 over the tag "QSOL_FOLD_V1", the folded opening and the verdicts.
fn evidence_hash(a_f: &Scalar, b_f: &Scalar, fold_ok: bool, tamper_detected: bool) -> (d: [u8; 64])
    ensures
        d@ == sha3_512(
            str_bytes("QSOL_FOLD_V1") + le_bytes(a_f@, 32) + le_bytes(b_f@, 32) + seq![
                flag_byte(fold_ok),
                flag_byte(tamper_detected),
            ],
        ),
{
    let mut ev: Vec<u8> = Vec::new();
    append_bytes(&mut ev, "QSOL_FOLD_V1".as_bytes());
    append_bytes(&mut ev, &a_f.to_repr());
    append_bytes(&mut ev, &b_f.to_repr());
    ev.push(if fold_ok { 1u8 } else { 0u8 });
    ev.push(if tamper_detected { 1u8 } else { 0u8 });
    assert(ev@ =~= str_bytes("QSOL_FOLD_V1") + le_bytes(a_f@, 32) + le_bytes(b_f@, 32) + seq![
        flag_byte(fold_ok),
        flag_byte(tamper_detected),
    ]);
    sha3_512_digest(ev.as_slice())
}

/// Run the fold of two Pedersen commitments.
pub fn run_pedersen_fold() -> (out: PedersenFold)
    ensures
        out.g@ == 1,
        out.h@ == h2s_spec(str_bytes("QSOL_H_GEN_v1")),
        out.r_gen@ == h2s_spec(str_bytes("QSOL_R_GEN_v1")),
        out.c1@ == commit3_spec(out.g@, out.h@, out.r_gen@, 3, 5, h2s_spec(str_bytes("rand_1"))),
        out.c2@ == commit3_spec(out.g@, out.h@, out.r_gen@, 7, 11, h2s_spec(str_bytes("rand_2"))),
        out.rho@ == fs_spec(str_bytes("QSOL_FOLD_CHALLENGE_v1"), seq![out.c1, out.c2]),
        out.c_folded@ == fold_point(out.c1@, out.c2@, out.rho@),
        out.a_folded@ == fold_value(3, 7, out.rho@),
        out.b_folded@ == fold_value(5, 11, out.rho@),
        out.s_folded@ == fold_value(
            h2s_spec(str_bytes("rand_1")),
            h2s_spec(str_bytes("rand_2")),
            out.rho@,
        ),
        out.c_computed@ == commit3_spec(
            out.g@,
            out.h@,
            out.r_gen@,
            out.a_folded@,
            out.b_folded@,
            out.s_folded@,
        ),
        out.fold_valid,
        out.tamper_detected,
        out.evidence_hash@ == sha3_512(
            str_bytes("QSOL_FOLD_V1") + le_bytes(out.a_folded@, 32) + le_bytes(out.b_folded@, 32)
                + seq![flag_byte(out.fold_valid), flag_byte(out.tamper_detected)],
        ),
{
    proof {
        lemma_modulus_bounds();
    }
    let g = Point::generator();
    let sh = h2s("QSOL_H_GEN_v1".as_bytes());
    let h = g.mul(&sh);
    let sr = h2s("QSOL_R_GEN_v1".as_bytes());
    let r_gen = g.mul(&sr);
    proof {
        lemma_small_mod(sh@, scalar_modulus());
        lemma_small_mod(sr@, scalar_modulus());
    }
    // Instance 1: (a1, b1, s1)
    let a1 = Scalar::from_u64(3);
    let b1 = Scalar::from_u64(5);
    let s1 = h2s("rand_1".as_bytes());
    let c1 = commit3(g, h, r_gen, a1, b1, s1);
    // Instance 2: (a2, b2, s2)
    let a2 = Scalar::from_u64(7);
    let b2 = Scalar::from_u64(11);
    let s2 = h2s("rand_2".as_bytes());
    let c2 = commit3(g, h, r_gen, a2, b2, s2);
    // The folding challenge over the two commitments
    let pts = vec![c1, c2];
    assert(pts@ =~= seq![c1, c2]);
    let rho = fs("QSOL_FOLD_CHALLENGE_v1".as_bytes(), pts.as_slice());
    // The fold of the commitments
    let c_folded = fold_commitments(&c1, &c2, &rho);
    // The same fold, computed from the openings
    let a_f = a1.add(&rho.mul(&a2));
    let b_f = b1.add(&rho.mul(&b2));
    let s_f = s1.add(&rho.mul(&s2));
    let c_computed = commit3(g, h, r_gen, a_f, b_f, s_f);
    proof {
        lemma_commit3_fold(g@, h@, r_gen@, a1@, b1@, s1@, a2@, b2@, s2@, rho@);
    }
    let fold_ok = c_folded.equals(&c_computed);
    // A tampered opening must not match the fold
    let a_bad = a_f.add(&Scalar::one());
    let c_bad = commit3(g, h, r_gen, a_bad, b_f, s_f);
    proof {
        lemma_commit3_binds_first(g@, h@, r_gen@, a_f@, b_f@, s_f@);
    }
    let tamper_detected = !c_bad.equals(&c_folded);
    // The evidence hash over the folded opening and the verdicts
    let evidence_hash = evidence_hash(&a_f, &b_f, fold_ok, tamper_detected);
    PedersenFold {
        g,
        h,
        r_gen,
        c1,
        c2,
        rho,
        c_folded,
        c_computed,
        a_folded: a_f,
        b_folded: b_f,
        s_folded: s_f,
        fold_valid: fold_ok,
        tamper_detected,
        evidence_hash,
    }
}

/// The evidence record of a run, given the time the fold took in microseconds.
pub fn pedersen_record(out: &PedersenFold, fold_time_us: u128) -> (s: String)
    ensures
        s@ == "QSOL_FOLD_V1\nscheme = pedersen-fold-pallas\na_folded = "@ + hex_chars(
            le_bytes(out.a_folded@, 32),
        ) + "\nb_folded = "@ + hex_chars(le_bytes(out.b_folded@, 32)) + "\nfold_valid = "@
            + bool_chars(out.fold_valid) + "\ntamper_detected = "@ + bool_chars(out.tamper_detected)
            + "\nfold_time_us = "@ + decimal_chars(fold_time_us as nat) + "\nevidence_hash = "@
            + hex_chars(out.evidence_hash@) + "\n"@,
{
    let mut s = String::new();
    s.append("QSOL_FOLD_V1\nscheme = pedersen-fold-pallas\na_folded = ");
    push_hex(&mut s, &out.a_folded.to_repr());
    s.append("\nb_folded = ");
    push_hex(&mut s, &out.b_folded.to_repr());
    s.append("\nfold_valid = ");
    push_bool(&mut s, out.fold_valid);
    s.append("\ntamper_detected = ");
    push_bool(&mut s, out.tamper_detected);
    s.append("\nfold_time_us = ");
    push_decimal(&mut s, fold_time_us);
    s.append("\nevidence_hash = ");
    push_hex(&mut s, &out.evidence_hash);
    s.append("\n");
    s
}

} // verus!
