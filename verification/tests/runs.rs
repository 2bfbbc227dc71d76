use ff::{Field, PrimeField};
use group::{Curve, Group, GroupEncoding};
use pasta_curves::pallas;
use qsol_nova::committed_fold::{committed_record, run_committed_fold};
use qsol_nova::hash::h2s;
use qsol_nova::pedersen_fold::{pedersen_record, run_pedersen_fold};
use qsol_nova::r1cs_fold::{r1cs_record, run_r1cs_fold};
use qsol_nova::text::hex;
use sha3::{Digest, Sha3_512};

fn ps(s: &qsol_nova::field::Scalar) -> pallas::Scalar {
    pallas::Scalar::from_repr(s.to_repr()).unwrap()
}

#[test]
fn pedersen_run_matches_direct_computation() {
    let out = run_pedersen_fold();
    assert!(out.fold_valid);
    assert!(out.tamper_detected);
    // the same computation, directly against pasta_curves
    let g = pallas::Point::generator();
    let h = g * ps(&h2s(b"QSOL_H_GEN_v1"));
    let r_gen = g * ps(&h2s(b"QSOL_R_GEN_v1"));
    let s1 = ps(&h2s(b"rand_1"));
    let s2 = ps(&h2s(b"rand_2"));
    let c1 = g * pallas::Scalar::from(3u64) + h * pallas::Scalar::from(5u64) + r_gen * s1;
    let c2 = g * pallas::Scalar::from(7u64) + h * pallas::Scalar::from(11u64) + r_gen * s2;
    assert_eq!(out.c1.to_bytes(), c1.to_affine().to_bytes());
    assert_eq!(out.c2.to_bytes(), c2.to_affine().to_bytes());
    let mut ch = Sha3_512::new();
    ch.update(b"QSOL_FOLD_CHALLENGE_v1");
    ch.update(c1.to_affine().to_bytes());
    ch.update(c2.to_affine().to_bytes());
    let rho = ps(&h2s(&ch.finalize()));
    assert_eq!(out.rho.to_repr(), rho.to_repr());
    let c_folded = c1 + c2 * rho;
    assert_eq!(out.c_folded.to_bytes(), c_folded.to_affine().to_bytes());
    let a_f = pallas::Scalar::from(3u64) + rho * pallas::Scalar::from(7u64);
    let b_f = pallas::Scalar::from(5u64) + rho * pallas::Scalar::from(11u64);
    assert_eq!(out.a_folded.to_repr(), a_f.to_repr());
    assert_eq!(out.b_folded.to_repr(), b_f.to_repr());
    let mut ev = Sha3_512::new();
    ev.update(b"QSOL_FOLD_V1");
    ev.update(a_f.to_repr());
    ev.update(b_f.to_repr());
    ev.update([1u8]);
    ev.update([1u8]);
    let ev: [u8; 64] = ev.finalize().into();
    assert_eq!(out.evidence_hash, ev);
}

#[test]
fn pedersen_record_layout() {
    let out = run_pedersen_fold();
    let rec = pedersen_record(&out, 1234);
    let expected = format!(
        "QSOL_FOLD_V1\nscheme = pedersen-fold-pallas\na_folded = {}\nb_folded = {}\nfold_valid = true\ntamper_detected = true\nfold_time_us = 1234\nevidence_hash = {}\n",
        hex(&out.a_folded.to_repr()),
        hex(&out.b_folded.to_repr()),
        hex(&out.evidence_hash)
    );
    assert_eq!(rec, expected);
    assert!(pedersen_record(&out, 0).contains("fold_time_us = 0\n"));
    assert!(pedersen_record(&out, 1000000).contains("fold_time_us = 1000000\n"));
}

#[test]
fn r1cs_run_matches_direct_computation() {
    let out = run_r1cs_fold();
    assert!(out.i1_satisfied && out.i2_satisfied);
    assert!(out.fold_valid);
    assert!(out.tamper_e_detected);
    assert!(out.tamper_z_detected);
    let f = |v: u64| pallas::Scalar::from(v);
    let mut ch = Sha3_512::new();
    ch.update(b"QSOL_R1CS_FOLD_v1");
    for v in [15u64, 3, 5, 77, 7, 11] {
        ch.update(f(v).to_repr());
    }
    let rho = ps(&h2s(&ch.finalize()));
    assert_eq!(out.rho.to_repr(), rho.to_repr());
    let t = f(3) * f(11) + f(7) * f(5) - f(77) - f(15);
    assert_eq!(out.cross_term.to_repr(), t.to_repr());
    let u = pallas::Scalar::ONE + rho;
    let e = rho * t;
    assert_eq!(out.folded.u.to_repr(), u.to_repr());
    assert_eq!(out.folded.e.to_repr(), e.to_repr());
    let z = [f(15) + rho * f(77), f(3) + rho * f(7), f(5) + rho * f(11)];
    for i in 0..3 {
        assert_eq!(out.folded.z[i].to_repr(), z[i].to_repr());
    }
    assert_eq!(out.lhs.to_repr(), (z[1] * z[2]).to_repr());
    assert_eq!(out.rhs.to_repr(), (u * z[0] + e).to_repr());
    let mut ev = Sha3_512::new();
    ev.update(b"QSOL_R1CS_FOLD_v1");
    ev.update(u.to_repr());
    ev.update(e.to_repr());
    for x in z.iter() {
        ev.update(x.to_repr());
    }
    ev.update([1u8, 1u8, 1u8]);
    let ev: [u8; 64] = ev.finalize().into();
    assert_eq!(out.evidence_hash, ev);
    let rec = r1cs_record(&out, 42);
    assert_eq!(
        rec,
        format!(
            "QSOL_R1CS_FOLD_v1\nscheme = nova-style-relaxed-r1cs-fold-pallas\ncircuit = w1*w2 = x\nfold_valid = true\ntamper_e_detected = true\ntamper_z_detected = true\nfold_time_us = 42\ncross_term_t = {}\nevidence_hash = {}\n",
            hex(&t.to_repr()),
            hex(&ev)
        )
    );
}

#[test]
fn committed_run_matches_direct_computation() {
    let out = run_committed_fold();
    assert!(out.instance1_satisfied && out.instance2_satisfied);
    assert!(out.fold_valid);
    assert!(out.tamper_detected);
    assert!(out.folded_satisfied);
    let f = |v: u64| pallas::Scalar::from(v);
    let g = pallas::Point::generator();
    let h = g * ps(&h2s(b"QSOL_BLIND_GEN_v1"));
    let z1 = [f(15), f(3), f(5)];
    let z2 = [f(77), f(7), f(11)];
    let r1: Vec<pallas::Scalar> = (0..3).map(|i| ps(&h2s(format!("r1_{}", i).as_bytes()))).collect();
    let r2: Vec<pallas::Scalar> = (0..3).map(|i| ps(&h2s(format!("r2_{}", i).as_bytes()))).collect();
    let c1: Vec<pallas::Point> = (0..3).map(|i| g * z1[i] + h * r1[i]).collect();
    let c2: Vec<pallas::Point> = (0..3).map(|i| g * z2[i] + h * r2[i]).collect();
    for i in 0..3 {
        assert_eq!(out.c1[i].to_bytes(), c1[i].to_affine().to_bytes());
        assert_eq!(out.c2[i].to_bytes(), c2[i].to_affine().to_bytes());
    }
    let mut ch = Sha3_512::new();
    ch.update(b"QSOL_COMMITTED_FOLD_v1");
    for p in c1.iter().chain(c2.iter()) {
        ch.update(p.to_affine().to_bytes());
    }
    let rho = ps(&h2s(&ch.finalize()));
    assert_eq!(out.rho.to_repr(), rho.to_repr());
    let mut ev = Sha3_512::new();
    ev.update(b"QSOL_COMMITTED_FOLD_v1");
    ev.update(rho.to_repr());
    for i in 0..3 {
        let zf = z1[i] + rho * z2[i];
        let rf = r1[i] + rho * r2[i];
        let cf = g * zf + h * rf;
        assert_eq!(out.c_f[i].to_bytes(), cf.to_affine().to_bytes());
        assert_eq!(out.c_expected[i].to_bytes(), (c1[i] + c2[i] * rho).to_affine().to_bytes());
        ev.update(cf.to_affine().to_bytes());
    }
    ev.update([1u8, 1u8, 1u8]);
    let ev: [u8; 64] = ev.finalize().into();
    assert_eq!(out.evidence_hash, ev);
    let rec = committed_record(&out, 7);
    assert_eq!(
        rec,
        format!(
            "QSOL_COMMITTED_FOLD_v1\nscheme = committed-nova-fold-pallas\ncircuit = w1*w2 = x\nverifier_sees_witness = false\nrho = {}\nfold_valid = true\ntamper_detected = true\nfolded_r1cs_satisfied = true\nfold_time_us = 7\nevidence_hash = {}\n",
            hex(&rho.to_repr()),
            hex(&ev)
        )
    );
    let _ = g.to_bytes();
}
