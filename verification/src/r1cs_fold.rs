//! A Nova-style fold of two relaxed R1CS instances of the circuit
//! w1 · w2 = x, with tamper checks on the folded instance.
use crate::field::{
    fadd, fmul, fold_value, le_bytes, lemma_modulus_bounds, lemma_scalar_in_range, scalar_modulus,
    Scalar,
};
use crate::hash::{h2s, h2s_spec, sha3_512, sha3_512_digest};
use crate::r1cs::{
    fold, fold_e, fold_z, lemma_fold_preserves_satisfaction, lemma_product_circuit,
    lemma_tampered_error_rejected, lemma_tampered_input_rejected, satisfied, values, Rlx, R1CS,
};
use crate::text::{
    append_bytes, bool_chars, decimal_chars, hex_chars, push_bool, push_decimal, push_hex,
    str_bytes,
};
use vstd::prelude::*;

verus! {

broadcast use lemma_scalar_in_range;

/// The canonical encodings of a list of field elements, one after the other.
pub open spec fn scalars_bytes(s: Seq<nat>) -> Seq<u8>
    decreases s.len(),
{
    if s.len() == 0 {
        Seq::empty()
    } else {
        scalars_bytes(s.drop_last()) + le_bytes(s.last(), 32)
    }
}

/// Each field element contributes its 32-byte encoding, in order.
pub proof fn lemma_scalars_bytes_append(s: Seq<nat>, x: nat)
    ensures
        scalars_bytes(s.push(x)) == scalars_bytes(s) + le_bytes(x, 32),
        scalars_bytes(s).len() == 32 * s.len(),
    decreases s.len(),
{
    assert(s.push(x).drop_last() =~= s);
    crate::field::lemma_le_bytes_value(x, 32);
    if s.len() > 0 {
        lemma_scalars_bytes_append(s.drop_last(), s.last());
        crate::field::lemma_le_bytes_value(s.last(), 32);
    }
}

/// 1 for true, 0 for false.
pub open spec fn flag_byte(b: bool) -> u8 {
    if b {
        1
    } else {
        0
    }
}

/// Append the canonical encodings of a list of field elements to `out`.
pub fn append_scalars(out: &mut Vec<u8>, s: &[Scalar])
    ensures
        final(out)@ == old(out)@ + scalars_bytes(values(s@)),
{
    let mut i: usize = 0;
    assert(values(s@).subrange(0, 0) =~= Seq::<nat>::empty());
    assert(out@ =~= old(out)@ + scalars_bytes(values(s@).subrange(0, 0)));
    while i < s.len()
        invariant
            i <= s@.len(),
            out@ == old(out)@ + scalars_bytes(values(s@).subrange(0, i as int)),
        decreases s@.len() - i,
    {
        let bytes = s[i].to_repr();
        append_bytes(out, &bytes);
        proof {
            let pre = values(s@).subrange(0, i + 1);
            assert(pre.drop_last() =~= values(s@).subrange(0, i as int));
            assert(pre.last() == s@[i as int]@);
            assert(out@ =~= old(out)@ + scalars_bytes(pre));
        }
        i += 1;
    }
    assert(values(s@).subrange(0, s@.len() as int) =~= values(s@));
}

/// Everything the R1CS folding run computes.
pub struct R1csFold {
    /// The circuit w1 · w2 = x.
    pub r: R1CS,
    /// (u, E, z) = (1, 0, [15, 3, 5]).
    pub i1: Rlx,
    /// (u, E, z) = (1, 0, [77, 7, 11]).
    pub i2: Rlx,
    pub i1_satisfied: bool,
    pub i2_satisfied: bool,
    /// The challenge drawn from both witnesses.
    pub rho: Scalar,
    pub folded: Rlx,
    /// The cross term T.
    pub cross_term: Scalar,
    /// (a·z)(b·z) of the folded instance.
    pub lhs: Scalar,
    /// u(c·z) + E of the folded instance.
    pub rhs: Scalar,
    pub fold_valid: bool,
    /// Whether the folded instance with E + 1 is rejected.
    pub tamper_e_detected: bool,
    /// Whether the folded instance with x + 1 is rejected.
    pub tamper_z_detected: bool,
    /// The SHA3-512 digest that anchors the folded instance and the verdicts.
    pub evidence_hash: [u8; 64],
}

/// The standard instance (1, 0, [x, w1, w2]).
fn standard_instance(x: u64, w1: u64, w2: u64) -> (i: Rlx)
    ensures
        i.u@ == 1,
        i.e@ == 0,
        i.zv() == seq![x as nat, w1 as nat, w2 as nat],
{
    let i = Rlx {
        u: Scalar::one(),
        e: Scalar::zero(),
        z: vec![Scalar::from_u64(x), Scalar::from_u64(w1), Scalar::from_u64(w2)],
    };
    assert(i.zv() =~= seq![x as nat, w1 as nat, w2 as nat]);
    i
}

/// SHA3-512 over the tag "QSOL_R1CS_FOLD_v1", the folded instance and the verdicts.
fn evidence_hash(f: &Rlx, fold_ok: bool, tamper_e: bool, tamper_z: bool) -> (d: [u8; 64])
    ensures
        d@ == sha3_512(
            str_bytes("QSOL_R1CS_FOLD_v1") + le_bytes(f.u@, 32) + le_bytes(f.e@, 32) + scalars_bytes(
                f.zv(),
            ) + seq![flag_byte(fold_ok), flag_byte(tamper_e), flag_byte(tamper_z)],
        ),
{
    let mut ev: Vec<u8> = Vec::new();
    append_bytes(&mut ev, "QSOL_R1CS_FOLD_v1".as_bytes());
    append_bytes(&mut ev, &f.u.to_repr());
    append_bytes(&mut ev, &f.e.to_repr());
    append_scalars(&mut ev, f.z.as_slice());
    ev.push(if fold_ok { 1u8 } else { 0u8 });
    ev.push(if tamper_e { 1u8 } else { 0u8 });
    ev.push(if tamper_z { 1u8 } else { 0u8 });
    assert(ev@ =~= str_bytes("QSOL_R1CS_FOLD_v1") + le_bytes(f.u@, 32) + le_bytes(f.e@, 32)
        + scalars_bytes(f.zv()) + seq![flag_byte(fold_ok), flag_byte(tamper_e), flag_byte(tamper_z)]);
    sha3_512_digest(ev.as_slice())
}

/// The challenge drawn from the witnesses of two instances.
fn challenge(i1: &Rlx, i2: &Rlx) -> (rho: Scalar)
    ensures
        rho@ == h2s_spec(
            sha3_512(str_bytes("QSOL_R1CS_FOLD_v1") + scalars_bytes(i1.zv()) + scalars_bytes(i2.zv())),
        ),
{
    let mut ch: Vec<u8> = Vec::new();
    append_bytes(&mut ch, "QSOL_R1CS_FOLD_v1".as_bytes());
    append_scalars(&mut ch, i1.z.as_slice());
    append_scalars(&mut ch, i2.z.as_slice());
    let digest = sha3_512_digest(ch.as_slice());
    h2s(&digest)
}

/// Whether the instance with its error term raised by one is rejected; it
/// always is when the instance itself is satisfied.
fn detects_tampered_error(r: &R1CS, f: &Rlx) -> (b: bool)
    ensures
        b == !r.satisfied_spec(f.u@, fadd(f.e@, 1), f.zv()),
        r.satisfied_spec(f.u@, f.e@, f.zv()) ==> b,
{
    let e_bad = f.e.add(&Scalar::one());
    proof {
        if r.satisfied_spec(f.u@, f.e@, f.zv()) {
            lemma_tampered_error_rejected(*r, f.u@, f.e@, f.zv());
        }
    }
    !satisfied(r, f.u, e_bad, f.z.as_slice())
}

/// Whether the instance with its public input x = z[0] raised by one is
/// rejected; for a satisfied instance of w1 · w2 = x that is so exactly when
/// u is not zero.
fn detects_tampered_input(r: &R1CS, f: &Rlx) -> (b: bool)
    requires
        r.is_product_circuit(),
        f.zv().len() == 3,
        r.satisfied_spec(f.u@, f.e@, f.zv()),
    ensures
        b == (f.u@ != 0),
{
    assert(f.z@.len() == 3);
    let bad_z = vec![f.z[0].add(&Scalar::one()), f.z[1], f.z[2]];
    let ghost zf = f.zv();
    let ghost zb = zf.update(0, fadd(zf[0], 1));
    assert(values(bad_z@) =~= zb);
    proof {
        if f.u@ != 0 {
            vstd::arithmetic::div_mod::lemma_small_mod(f.u@, scalar_modulus());
            lemma_tampered_input_rejected(*r, f.u@, f.e@, zf);
        } else {
            lemma_product_circuit(*r, zf);
            lemma_product_circuit(*r, zb);
        }
    }
    !satisfied(r, f.u, f.e, bad_z.as_slice())
}

/// Run the fold of the instances 3 · 5 = 15 and 7 · 11 = 77.
pub fn run_r1cs_fold() -> (out: R1csFold)
    ensures
        out.r.is_product_circuit(),
        out.i1.u@ == 1 && out.i1.e@ == 0 && out.i1.zv() == seq![15nat, 3nat, 5nat],
        out.i2.u@ == 1 && out.i2.e@ == 0 && out.i2.zv() == seq![77nat, 7nat, 11nat],
        out.i1_satisfied,
        out.i2_satisfied,
        out.rho@ == h2s_spec(
            sha3_512(
                str_bytes("QSOL_R1CS_FOLD_v1") + scalars_bytes(out.i1.zv()) + scalars_bytes(
                    out.i2.zv(),
                ),
            ),
        ),
        out.cross_term@ == out.r.cross_term_spec(1, out.i1.zv(), 1, out.i2.zv()),
        out.folded.u@ == fold_value(1, 1, out.rho@),
        out.folded.e@ == fold_e(0, out.cross_term@, 0, out.rho@),
        out.folded.zv() == fold_z(out.i1.zv(), out.i2.zv(), out.rho@),
        out.lhs@ == fmul(out.r.az_spec(out.folded.zv()), out.r.bz_spec(out.folded.zv())),
        out.rhs@ == fadd(fmul(out.folded.u@, out.r.cz_spec(out.folded.zv())), out.folded.e@),
        out.fold_valid,
        out.tamper_e_detected,
        out.tamper_z_detected == (out.folded.u@ != 0),
        out.evidence_hash@ == sha3_512(
            str_bytes("QSOL_R1CS_FOLD_v1") + le_bytes(out.folded.u@, 32) + le_bytes(
                out.folded.e@,
                32,
            ) + scalars_bytes(out.folded.zv()) + seq![
                flag_byte(out.fold_valid),
                flag_byte(out.tamper_e_detected),
                flag_byte(out.tamper_z_detected),
            ],
        ),
{
    proof {
        lemma_modulus_bounds();
    }
    let r = R1CS::new();
    // Two standard instances: 3 * 5 = 15 and 7 * 11 = 77
    let i1 = standard_instance(15, 3, 5);
    let i2 = standard_instance(77, 7, 11);
    let i1_satisfied = satisfied(&r, i1.u, i1.e, i1.z.as_slice());
    let i2_satisfied = satisfied(&r, i2.u, i2.e, i2.z.as_slice());
    proof {
        lemma_product_circuit(r, i1.zv());
        lemma_product_circuit(r, i2.zv());
    }
    // The Fiat-Shamir challenge over both witnesses
    let rho = challenge(&i1, &i2);
    let (folded, t) = fold(&r, &i1, &i2, rho);
    // The folded relaxed row: (a·z)(b·z) == u(c·z) + E
    let lhs = r.az(folded.z.as_slice()).mul(&r.bz(folded.z.as_slice()));
    let rhs = folded.u.mul(&r.cz(folded.z.as_slice())).add(&folded.e);
    proof {
        lemma_fold_preserves_satisfaction(r, 1, 0, i1.zv(), 1, 0, i2.zv(), rho@);
    }
    let fold_ok = lhs.equals(&rhs);
    // Tamper with E, then with x = z[0]
    let tamper_e = detects_tampered_error(&r, &folded);
    let tamper_z = detects_tampered_input(&r, &folded);
    let evidence_hash = evidence_hash(&folded, fold_ok, tamper_e, tamper_z);
    R1csFold {
        r,
        i1,
        i2,
        i1_satisfied,
        i2_satisfied,
        rho,
        folded,
        cross_term: t,
        lhs,
        rhs,
        fold_valid: fold_ok,
        tamper_e_detected: tamper_e,
        tamper_z_detected: tamper_z,
        evidence_hash,
    }
}

/// The evidence record of a run, given the time the fold took in microseconds.
pub fn r1cs_record(out: &R1csFold, fold_time_us: u128) -> (s: String)
    ensures
        s@ == "QSOL_R1CS_FOLD_v1\nscheme = nova-style-relaxed-r1cs-fold-pallas\ncircuit = w1*w2 = x\nfold_valid = "@
            + bool_chars(out.fold_valid) + "\ntamper_e_detected = "@ + bool_chars(
            out.tamper_e_detected,
        ) + "\ntamper_z_detected = "@ + bool_chars(out.tamper_z_detected) + "\nfold_time_us = "@
            + decimal_chars(fold_time_us as nat) + "\ncross_term_t = "@ + hex_chars(
            le_bytes(out.cross_term@, 32),
        ) + "\nevidence_hash = "@ + hex_chars(out.evidence_hash@) + "\n"@,
{
    let mut s = String::new();
    s.append(
        "QSOL_R1CS_FOLD_v1\nscheme = nova-style-relaxed-r1cs-fold-pallas\ncircuit = w1*w2 = x\nfold_valid = ",
    );
    push_bool(&mut s, out.fold_valid);
    s.append("\ntamper_e_detected = ");
    push_bool(&mut s, out.tamper_e_detected);
    s.append("\ntamper_z_detected = ");
    push_bool(&mut s, out.tamper_z_detected);
    s.append("\nfold_time_us = ");
    push_decimal(&mut s, fold_time_us);
    s.append("\ncross_term_t = ");
    push_hex(&mut s, &out.cross_term.to_repr());
    s.append("\nevidence_hash = ");
    push_hex(&mut s, &out.evidence_hash);
    s.append("\n");
    s
}

} // verus!
