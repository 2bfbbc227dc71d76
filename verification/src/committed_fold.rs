//! A Nova fold in which the verifier sees only commitments.
//!
//! Each witness entry is committed with its own blinding value. The challenge
//! is drawn from the commitments; the verifier folds the commitments, the
//! prover folds witnesses and blinding values and commits to them, and the
//! two must agree. The prover also checks the folded relaxed R1CS row.
use crate::commitment::{
    commit, commit_bytes, commit_spec, fold_commitments, fold_point, fs, fs_spec,
    lemma_commit_fold, lemma_fold_shift_detected,
};
use crate::curve::{lemma_point_in_range, pallas_multiple, Point};
use crate::field::{
    fadd, fmul, fold_value, le_bytes, lemma_modulus_bounds, lemma_scalar_in_range, scalar_modulus,
    Scalar,
};
use crate::hash::{h2s, h2s_spec, sha3_512, sha3_512_digest};
use crate::r1cs::{
    fold, fold_e, fold_z, lemma_fold_preserves_satisfaction, lemma_product_circuit, satisfied,
    values, Rlx, R1CS,
};
use crate::text::{
    append_bytes, bool_chars, decimal_chars, hex_chars, push_bool, push_decimal, push_hex,
    str_bytes,
};
use vstd::prelude::*;

verus! {

broadcast use {lemma_scalar_in_range, lemma_point_in_range};

/// The views of a list of points.
pub open spec fn point_values(s: Seq<Point>) -> Seq<nat> {
    s.map_values(|p: Point| p@)
}

/// The encodings of a list of points given by their views, one after the other.
pub open spec fn encodings_of(s: Seq<nat>) -> Seq<u8>
    decreases s.len(),
{
    if s.len() == 0 {
        Seq::empty()
    } else {
        encodings_of(s.drop_last()) + pallas_multiple(s.last())
    }
}

/// Each point contributes its encoding, in order, the last one included.
pub proof fn lemma_encodings_of_append(s: Seq<nat>, k: nat)
    ensures
        encodings_of(s.push(k)) == encodings_of(s) + pallas_multiple(k),
        encodings_of(seq![k]) == pallas_multiple(k),
{
    assert(s.push(k).drop_last() =~= s);
    assert(seq![k].drop_last() =~= Seq::<nat>::empty());
    assert(encodings_of(Seq::<nat>::empty()) + pallas_multiple(k) =~= pallas_multiple(k));
}

/// 1 for true, 0 for false.
pub open spec fn flag_byte(b: bool) -> u8 {
    if b {
        1
    } else {
        0
    }
}

/// Commit to each entry of a witness with its own blinding value.
pub fn commit_entries(g: Point, h: Point, z: &[Scalar], r: &[Scalar]) -> (c: Vec<Point>)
    requires
        r@.len() == z@.len(),
    ensures
        c@.len() == z@.len(),
        forall|i: int|
            0 <= i < z@.len() ==> #[trigger] c@[i]@ == commit_spec(g@, h@, z@[i]@, r@[i]@),
{
    let mut c: Vec<Point> = Vec::new();
    let mut i: usize = 0;
    while i < z.len()
        invariant
            i <= z@.len(),
            r@.len() == z@.len(),
            c@.len() == i,
            forall|j: int| 0 <= j < i ==> #[trigger] c@[j]@ == commit_spec(g@, h@, z@[j]@, r@[j]@),
        decreases z@.len() - i,
    {
        c.push(commit(g, h, z[i], r[i]));
        i += 1;
    }
    c
}

/// x1 + ρ·x2, entry by entry.
pub fn fold_entries(x1: &[Scalar], x2: &[Scalar], rho: &Scalar) -> (f: Vec<Scalar>)
    requires
        x1@.len() == x2@.len(),
    ensures
        f@.len() == x1@.len(),
        forall|i: int|
            0 <= i < x1@.len() ==> #[trigger] f@[i]@ == fold_value(x1@[i]@, x2@[i]@, rho@),
{
    let mut f: Vec<Scalar> = Vec::new();
    let mut i: usize = 0;
    while i < x1.len()
        invariant
            i <= x1@.len(),
            x1@.len() == x2@.len(),
            f@.len() == i,
            forall|j: int| 0 <= j < i ==> #[trigger] f@[j]@ == fold_value(x1@[j]@, x2@[j]@, rho@),
        decreases x1@.len() - i,
    {
        f.push(x1[i].add(&rho.mul(&x2[i])));
        i += 1;
    }
    f
}

/// C1 + ρ·C2, commitment by commitment.
pub fn fold_commitment_entries(c1: &[Point], c2: &[Point], rho: &Scalar) -> (f: Vec<Point>)
    requires
        c1@.len() == c2@.len(),
    ensures
        f@.len() == c1@.len(),
        forall|i: int|
            0 <= i < c1@.len() ==> #[trigger] f@[i]@ == fold_point(c1@[i]@, c2@[i]@, rho@),
{
    let mut f: Vec<Point> = Vec::new();
    let mut i: usize = 0;
    while i < c1.len()
        invariant
            i <= c1@.len(),
            c1@.len() == c2@.len(),
            f@.len() == i,
            forall|j: int| 0 <= j < i ==> #[trigger] f@[j]@ == fold_point(c1@[j]@, c2@[j]@, rho@),
        decreases c1@.len() - i,
    {
        f.push(fold_commitments(&c1[i], &c2[i], rho));
        i += 1;
    }
    f
}

/// Whether two lists of points of one length agree entry by entry.
pub fn points_agree(a: &[Point], b: &[Point]) -> (ok: bool)
    requires
        a@.len() == b@.len(),
    ensures
        ok == (forall|i: int| 0 <= i < a@.len() ==> #[trigger] a@[i]@ == b@[i]@),
{
    let mut ok = true;
    let mut i: usize = 0;
    while i < a.len()
        invariant
            i <= a@.len(),
            a@.len() == b@.len(),
            ok == (forall|j: int| 0 <= j < i ==> #[trigger] a@[j]@ == b@[j]@),
        decreases a@.len() - i,
    {
        if !a[i].equals(&b[i]) {
            ok = false;
        }
        i += 1;
    }
    ok
}

/// Append the encodings of a list of points to `out`.
fn append_points(out: &mut Vec<u8>, s: &[Point])
    ensures
        final(out)@ == old(out)@ + encodings_of(point_values(s@)),
{
    let mut i: usize = 0;
    assert(point_values(s@).subrange(0, 0) =~= Seq::<nat>::empty());
    assert(out@ =~= old(out)@ + encodings_of(point_values(s@).subrange(0, 0)));
    while i < s.len()
        invariant
            i <= s@.len(),
            out@ == old(out)@ + encodings_of(point_values(s@).subrange(0, i as int)),
        decreases s@.len() - i,
    {
        let bytes = commit_bytes(s[i]);
        append_bytes(out, &bytes);
        proof {
            let pre = point_values(s@).subrange(0, i + 1);
            assert(pre.drop_last() =~= point_values(s@).subrange(0, i as int));
            assert(pre.last() == s@[i as int]@);
            assert(out@ =~= old(out)@ + encodings_of(pre));
        }
        i += 1;
    }
    assert(point_values(s@).subrange(0, s@.len() as int) =~= point_values(s@));
}

/// The points of a followed by those of b.
fn concat_points(a: &[Point], b: &[Point]) -> (c: Vec<Point>)
    ensures
        c@ == a@ + b@,
{
    let mut c: Vec<Point> = Vec::new();
    let mut i: usize = 0;
    while i < a.len()
        invariant
            i <= a@.len(),
            c@ == a@.subrange(0, i as int),
        decreases a@.len() - i,
    {
        c.push(a[i]);
        assert(a@.subrange(0, i + 1) =~= a@.subrange(0, i as int).push(a@[i as int]));
        i += 1;
    }
    assert(a@.subrange(0, a@.len() as int) =~= a@);
    let mut j: usize = 0;
    while j < b.len()
        invariant
            j <= b@.len(),
            c@ == a@ + b@.subrange(0, j as int),
        decreases b@.len() - j,
    {
        c.push(b[j]);
        assert(b@.subrange(0, j + 1) =~= b@.subrange(0, j as int).push(b@[j as int]));
        j += 1;
    }
    assert(b@.subrange(0, b@.len() as int) =~= b@);
    c
}

/// The prover commits to the folded witness and blinding values; the verifier
/// folds the input commitments; the two lists are compared. They always agree.
fn commit_and_compare(
    g: Point,
    h: Point,
    z1: &[Scalar],
    r1: &[Scalar],
    z2: &[Scalar],
    r2: &[Scalar],
    c1: &[Point],
    c2: &[Point],
    z_f: &[Scalar],
    r_f: &[Scalar],
    rho: &Scalar,
) -> (res: (Vec<Point>, Vec<Point>, bool))
    requires
        z1@.len() == 3 && r1@.len() == 3 && z2@.len() == 3 && r2@.len() == 3,
        c1@.len() == 3 && c2@.len() == 3 && z_f@.len() == 3 && r_f@.len() == 3,
        forall|k: int|
            0 <= k < 3 ==> #[trigger] c1@[k]@ == commit_spec(g@, h@, z1@[k]@, r1@[k]@) && c2@[k]@
                == commit_spec(g@, h@, z2@[k]@, r2@[k]@) && z_f@[k]@ == fold_value(
                z1@[k]@,
                z2@[k]@,
                rho@,
            ) && r_f@[k]@ == fold_value(r1@[k]@, r2@[k]@, rho@),
    ensures
        res.0@.len() == 3 && res.1@.len() == 3,
        forall|k: int|
            0 <= k < 3 ==> #[trigger] res.0@[k]@ == commit_spec(g@, h@, z_f@[k]@, r_f@[k]@)
                && res.1@[k]@ == fold_point(c1@[k]@, c2@[k]@, rho@) && res.0@[k]@ == res.1@[k]@,
        res.2,
{
    let c_f = commit_entries(g, h, z_f, r_f);
    let c_expected = fold_commitment_entries(c1, c2, rho);
    proof {
        assert forall|k: int| 0 <= k < 3 implies #[trigger] c_f@[k]@ == c_expected@[k]@ by {
            assert(c1@[k]@ == commit_spec(g@, h@, z1@[k]@, r1@[k]@));
            lemma_commit_fold(g@, h@, z1@[k]@, r1@[k]@, z2@[k]@, r2@[k]@, rho@);
        }
    }
    let ok = points_agree(c_f.as_slice(), c_expected.as_slice());
    (c_f, c_expected, ok)
}

/// Everything the committed folding run computes.
pub struct CommittedFold {
    /// The circuit w1 · w2 = x.
    pub r: R1CS,
    pub g: Point,
    /// H = h2s("QSOL_BLIND_GEN_v1")·G.
    pub h: Point,
    /// [15, 3, 5].
    pub z1: Vec<Scalar>,
    /// [77, 7, 11].
    pub z2: Vec<Scalar>,
    /// h2s("r1_0"), h2s("r1_1"), h2s("r1_2").
    pub r1: Vec<Scalar>,
    /// h2s("r2_0"), h2s("r2_1"), h2s("r2_2").
    pub r2: Vec<Scalar>,
    /// Entry-wise commitments to z1.
    pub c1: Vec<Point>,
    /// Entry-wise commitments to z2.
    pub c2: Vec<Point>,
    pub instance1_satisfied: bool,
    pub instance2_satisfied: bool,
    /// The challenge drawn from the six commitments.
    pub rho: Scalar,
    /// The prover's folded witness.
    pub z_f: Vec<Scalar>,
    /// The prover's folded blinding values.
    pub r_f: Vec<Scalar>,
    /// The prover's commitments to the folded witness.
    pub c_f: Vec<Point>,
    /// The verifier's fold of the commitments.
    pub c_expected: Vec<Point>,
    pub fold_valid: bool,
    pub tamper_detected: bool,
    /// The cross term T of the two instances.
    pub cross_term: Scalar,
    pub u_f: Scalar,
    pub e_f: Scalar,
    pub folded_satisfied: bool,
    /// The SHA3-512 digest that anchors the challenge, the folded commitments
    /// and the verdicts.
    pub evidence_hash: [u8; 64],
}

/// SHA3-512 over the tag, the challenge, the folded commitments and the verdicts.
fn evidence_hash(rho: &Scalar, c_f: &[Point], fold_ok: bool, tamper: bool, rlx_ok: bool) -> (d:
    [u8; 64])
    ensures
        d@ == sha3_512(
            str_bytes("QSOL_COMMITTED_FOLD_v1") + le_bytes(rho@, 32) + encodings_of(
                point_values(c_f@),
            ) + seq![flag_byte(fold_ok), flag_byte(tamper), flag_byte(rlx_ok)],
        ),
{
    let mut ev: Vec<u8> = Vec::new();
    append_bytes(&mut ev, "QSOL_COMMITTED_FOLD_v1".as_bytes());
    append_bytes(&mut ev, &rho.to_repr());
    append_points(&mut ev, c_f);
    ev.push(if fold_ok { 1u8 } else { 0u8 });
    ev.push(if tamper { 1u8 } else { 0u8 });
    ev.push(if rlx_ok { 1u8 } else { 0u8 });
    assert(ev@ =~= str_bytes("QSOL_COMMITTED_FOLD_v1") + le_bytes(rho@, 32) + encodings_of(
        point_values(c_f@),
    ) + seq![flag_byte(fold_ok), flag_byte(tamper), flag_byte(rlx_ok)]);
    sha3_512_digest(ev.as_slice())
}

/// The witness [x, w1, w2].
fn witness(x: u64, w1: u64, w2: u64) -> (z: Vec<Scalar>)
    ensures
        z@.len() == 3,
        values(z@) == seq![x as nat, w1 as nat, w2 as nat],
{
    let z = vec![Scalar::from_u64(x), Scalar::from_u64(w1), Scalar::from_u64(w2)];
    assert(values(z@) =~= seq![x as nat, w1 as nat, w2 as nat]);
    z
}

/// Three blinding values hashed from labels.
fn blinding(l0: &str, l1: &str, l2: &str) -> (r: Vec<Scalar>)
    ensures
        r@.len() == 3,
        values(r@) == seq![h2s_spec(str_bytes(l0)), h2s_spec(str_bytes(l1)), h2s_spec(str_bytes(l2))],
{
    let r = vec![h2s(l0.as_bytes()), h2s(l1.as_bytes()), h2s(l2.as_bytes())];
    assert(values(r@) =~= seq![
        h2s_spec(str_bytes(l0)),
        h2s_spec(str_bytes(l1)),
        h2s_spec(str_bytes(l2)),
    ]);
    r
}

/// The verifier's tamper check: with G added to the first commitment of the
/// first instance, whether the verifier's fold of the first entry differs from
/// the prover's first folded commitment. It always does when G is not the
/// identity and the prover's commitment is the fold of the untampered inputs.
fn detects_tampered_commitment(g: &Point, c1: &[Point], c2: &[Point], rho: &Scalar, c_f: &[Point]) -> (b:
    bool)
    requires
        c1@.len() == c2@.len(),
        c1@.len() > 0,
        c_f@.len() > 0,
    ensures
        b == (fold_point(fadd(c1@[0]@, g@), c2@[0]@, rho@) != c_f@[0]@),
        g@ != 0 && c_f@[0]@ == fold_point(c1@[0]@, c2@[0]@, rho@) ==> b,
{
    let mut c1_bad: Vec<Point> = Vec::new();
    let mut i: usize = 0;
    while i < c1.len()
        invariant
            i <= c1@.len(),
            c1_bad@.len() == i,
            c1@.len() > 0,
            i > 0 ==> c1_bad@[0]@ == fadd(c1@[0]@, g@),
        decreases c1@.len() - i,
    {
        if i == 0 {
            c1_bad.push(c1[0].add(g));
        } else {
            c1_bad.push(c1[i]);
        }
        i += 1;
    }
    let c_bad = fold_commitment_entries(c1_bad.as_slice(), c2, rho);
    proof {
        if g@ != 0 {
            lemma_modulus_bounds();
            vstd::arithmetic::div_mod::lemma_small_mod(g@, scalar_modulus());
            lemma_fold_shift_detected(c1@[0]@, g@, c2@[0]@, rho@);
        }
    }
    !c_bad[0].equals(&c_f[0])
}

/// The prover folds the two instances and their blinding values and commits
/// to the folded witness; the verifier folds the commitments; the two must
/// agree, a tampered commitment must be caught, and the folded relaxed row
/// must hold.
fn fold_and_check(
    r: &R1CS,
    g: Point,
    h: Point,
    i1: &Rlx,
    i2: &Rlx,
    r1: &[Scalar],
    r2: &[Scalar],
    c1: &[Point],
    c2: &[Point],
    rho: Scalar,
) -> (res: (Rlx, Scalar, Vec<Scalar>, Vec<Point>, Vec<Point>, bool, bool, bool))
    requires
        g@ == 1,
        i1.z@.len() == 3 && i2.z@.len() == 3 && r1@.len() == 3 && r2@.len() == 3,
        c1@.len() == 3 && c2@.len() == 3,
        forall|k: int|
            0 <= k < 3 ==> #[trigger] c1@[k]@ == commit_spec(g@, h@, i1.z@[k]@, r1@[k]@) && c2@[k]@
                == commit_spec(g@, h@, i2.z@[k]@, r2@[k]@),
        r.satisfied_spec(i1.u@, i1.e@, i1.zv()),
        r.satisfied_spec(i2.u@, i2.e@, i2.zv()),
    ensures
        res.1@ == r.cross_term_spec(i1.u@, i1.zv(), i2.u@, i2.zv()),
        res.0.u@ == fold_value(i1.u@, i2.u@, rho@),
        res.0.e@ == fold_e(i1.e@, res.1@, i2.e@, rho@),
        res.0.zv() == fold_z(i1.zv(), i2.zv(), rho@),
        res.2@.len() == 3 && res.3@.len() == 3 && res.4@.len() == 3,
        forall|k: int|
            0 <= k < 3 ==> #[trigger] res.2@[k]@ == fold_value(r1@[k]@, r2@[k]@, rho@)
                && res.3@[k]@ == commit_spec(g@, h@, res.0.z@[k]@, res.2@[k]@) && res.4@[k]@
                == fold_point(c1@[k]@, c2@[k]@, rho@),
        res.5,
        res.6,
        res.7,
{
    let (folded, t) = fold(r, i1, i2, rho);
    let r_f = fold_entries(r1, r2, &rho);
    assert(values(i1.z@).len() == 3);
    assert(values(i2.z@).len() == 3);
    assert(folded.zv().len() == 3);
    assert(folded.z@.len() == 3);
    proof {
        assert forall|k: int| 0 <= k < 3 implies #[trigger] folded.z@[k]@ == fold_value(
            i1.z@[k]@,
            i2.z@[k]@,
            rho@,
        ) by {
            assert(values(folded.z@)[k] == folded.z@[k]@);
            assert(values(i1.z@)[k] == i1.z@[k]@);
            assert(values(i2.z@)[k] == i2.z@[k]@);
        }
    }
    let (c_f, c_expected, fold_ok) = commit_and_compare(
        g,
        h,
        i1.z.as_slice(),
        r1,
        i2.z.as_slice(),
        r2,
        c1,
        c2,
        folded.z.as_slice(),
        r_f.as_slice(),
        &rho,
    );
    assert(c_f@[0]@ == c_expected@[0]@);
    let tamper_detected = detects_tampered_commitment(&g, c1, c2, &rho, c_f.as_slice());
    let rlx_ok = satisfied(r, folded.u, folded.e, folded.z.as_slice());
    proof {
        lemma_fold_preserves_satisfaction(
            *r,
            i1.u@,
            i1.e@,
            i1.zv(),
            i2.u@,
            i2.e@,
            i2.zv(),
            rho@,
        );
    }
    (folded, t, r_f, c_f, c_expected, fold_ok, tamper_detected, rlx_ok)
}

#[verifier::spinoff_prover]
#[verifier::rlimit(40)]
/// Run the committed fold of the instances 3 · 5 = 15 and 7 · 11 = 77.
pub fn run_committed_fold() -> (out: CommittedFold)
    ensures
        out.r.is_product_circuit(),
        out.g@ == 1,
        out.h@ == h2s_spec(str_bytes("QSOL_BLIND_GEN_v1")),
        values(out.z1@) == seq![15nat, 3nat, 5nat],
        values(out.z2@) == seq![77nat, 7nat, 11nat],
        values(out.r1@) == seq![
            h2s_spec(str_bytes("r1_0")),
            h2s_spec(str_bytes("r1_1")),
            h2s_spec(str_bytes("r1_2")),
        ],
        values(out.r2@) == seq![
            h2s_spec(str_bytes("r2_0")),
            h2s_spec(str_bytes("r2_1")),
            h2s_spec(str_bytes("r2_2")),
        ],
        out.c1@.len() == 3 && out.c2@.len() == 3,
        forall|i: int|
            0 <= i < 3 ==> #[trigger] out.c1@[i]@ == commit_spec(
                out.g@,
                out.h@,
                out.z1@[i]@,
                out.r1@[i]@,
            ) && out.c2@[i]@ == commit_spec(out.g@, out.h@, out.z2@[i]@, out.r2@[i]@),
        out.instance1_satisfied,
        out.instance2_satisfied,
        out.rho@ == fs_spec(str_bytes("QSOL_COMMITTED_FOLD_v1"), out.c1@ + out.c2@),
        values(out.z_f@) == fold_z(values(out.z1@), values(out.z2@), out.rho@),
        out.r_f@.len() == 3 && out.c_f@.len() == 3 && out.c_expected@.len() == 3,
        forall|i: int|
            0 <= i < 3 ==> #[trigger] out.r_f@[i]@ == fold_value(
                out.r1@[i]@,
                out.r2@[i]@,
                out.rho@,
            ) && out.c_f@[i]@ == commit_spec(out.g@, out.h@, out.z_f@[i]@, out.r_f@[i]@)
                && out.c_expected@[i]@ == fold_point(out.c1@[i]@, out.c2@[i]@, out.rho@),
        out.fold_valid,
        out.tamper_detected,
        out.cross_term@ == out.r.cross_term_spec(1, values(out.z1@), 1, values(out.z2@)),
        out.u_f@ == fold_value(1, 1, out.rho@),
        out.e_f@ == fold_e(0, out.cross_term@, 0, out.rho@),
        out.folded_satisfied,
        out.evidence_hash@ == sha3_512(
            str_bytes("QSOL_COMMITTED_FOLD_v1") + le_bytes(out.rho@, 32) + encodings_of(
                point_values(out.c_f@),
            ) + seq![
                flag_byte(out.fold_valid),
                flag_byte(out.tamper_detected),
                flag_byte(out.folded_satisfied),
            ],
        ),
{
    proof {
        lemma_modulus_bounds();
    }
    let r = R1CS::new();
    // Generators
    let g = Point::generator();
    let sh = h2s("QSOL_BLIND_GEN_v1".as_bytes());
    let h = g.mul(&sh);
    proof {
        vstd::arithmetic::div_mod::lemma_small_mod(sh@, scalar_modulus());
    }
    // Two satisfying instances, each with blinding values
    let z1 = witness(15, 3, 5);
    let z2 = witness(77, 7, 11);
    let r1 = blinding("r1_0", "r1_1", "r1_2");
    let r2 = blinding("r2_0", "r2_1", "r2_2");
    // Entry-wise commitments to the witnesses
    let c1 = commit_entries(g, h, z1.as_slice(), r1.as_slice());
    let c2 = commit_entries(g, h, z2.as_slice(), r2.as_slice());
    let one = Scalar::one();
    let zero = Scalar::zero();
    let instance1_satisfied = satisfied(&r, one, zero, z1.as_slice());
    let instance2_satisfied = satisfied(&r, one, zero, z2.as_slice());
    proof {
        lemma_product_circuit(r, values(z1@));
        lemma_product_circuit(r, values(z2@));
    }
    // The verifier's challenge over the six commitments
    let all = concat_points(c1.as_slice(), c2.as_slice());
    let rho = fs("QSOL_COMMITTED_FOLD_v1".as_bytes(), all.as_slice());
    // The prover folds; the verifier folds the commitments; both check
    let i1 = Rlx { u: one, e: zero, z: z1 };
    let i2 = Rlx { u: one, e: zero, z: z2 };
    let (folded, t, r_f, c_f, c_expected, fold_ok, tamper_detected, rlx_ok) = fold_and_check(
        &r,
        g,
        h,
        &i1,
        &i2,
        r1.as_slice(),
        r2.as_slice(),
        c1.as_slice(),
        c2.as_slice(),
        rho,
    );
    let evidence_hash = evidence_hash(&rho, c_f.as_slice(), fold_ok, tamper_detected, rlx_ok);
    CommittedFold {
        r,
        g,
        h,
        z1: i1.z,
        z2: i2.z,
        r1,
        r2,
        c1,
        c2,
        instance1_satisfied,
        instance2_satisfied,
        rho,
        z_f: folded.z,
        r_f,
        c_f,
        c_expected,
        fold_valid: fold_ok,
        tamper_detected,
        cross_term: t,
        u_f: folded.u,
        e_f: folded.e,
        folded_satisfied: rlx_ok,
        evidence_hash,
    }
}

/// The evidence record of a run, given the time the fold took in microseconds.
pub fn committed_record(out: &CommittedFold, fold_time_us: u128) -> (s: String)
    ensures
        s@ == "QSOL_COMMITTED_FOLD_v1\nscheme = committed-nova-fold-pallas\ncircuit = w1*w2 = x\nverifier_sees_witness = false\nrho = "@
            + hex_chars(le_bytes(out.rho@, 32)) + "\nfold_valid = "@ + bool_chars(out.fold_valid)
            + "\ntamper_detected = "@ + bool_chars(out.tamper_detected)
            + "\nfolded_r1cs_satisfied = "@ + bool_chars(out.folded_satisfied)
            + "\nfold_time_us = "@ + decimal_chars(fold_time_us as nat) + "\nevidence_hash = "@
            + hex_chars(out.evidence_hash@) + "\n"@,
{
    let mut s = String::new();
    s.append(
        "QSOL_COMMITTED_FOLD_v1\nscheme = committed-nova-fold-pallas\ncircuit = w1*w2 = x\nverifier_sees_witness = false\nrho = ",
    );
    push_hex(&mut s, &out.rho.to_repr());
    s.append("\nfold_valid = ");
    push_bool(&mut s, out.fold_valid);
    s.append("\ntamper_detected = ");
    push_bool(&mut s, out.tamper_detected);
    s.append("\nfolded_r1cs_satisfied = ");
    push_bool(&mut s, out.folded_satisfied);
    s.append("\nfold_time_us = ");
    push_decimal(&mut s, fold_time_us);
    s.append("\nevidence_hash = ");
    push_hex(&mut s, &out.evidence_hash);
    s.append("\n");
    s
}

} // verus!
