use ff::PrimeField;
use group::{Curve, Group, GroupEncoding};
use pasta_curves::pallas;
use qsol_nova::commitment::{commit, commit3, commit_bytes, fold_commitments, fs};
use qsol_nova::curve::Point;
use qsol_nova::field::Scalar;
use qsol_nova::hash::h2s;
use sha3::{Digest, Sha3_512};

fn to_pasta(s: &Scalar) -> pallas::Scalar {
    pallas::Scalar::from_repr(s.to_repr()).unwrap()
}

#[test]
fn generator_encoding_matches_pasta() {
    let g = Point::generator();
    assert_eq!(g.to_bytes(), pallas::Point::generator().to_affine().to_bytes());
    // G = (-1, 2): the encoding of x = p - 1 with the sign bit of y = 2 clear
    let b = g.to_bytes();
    assert_eq!(b[0], 0x00);
    assert_eq!(b[31], 0x40);
}

#[test]
fn point_mul_and_add_match_pasta() {
    let g = Point::generator();
    let s = Scalar::from_u64(12345);
    let p = g.mul(&s);
    let expected = pallas::Point::generator() * pallas::Scalar::from(12345u64);
    assert_eq!(p.to_bytes(), expected.to_affine().to_bytes());
    assert_ne!(p.to_bytes(), g.to_bytes());
    let q = p.add(&g);
    let expected_sum = expected + pallas::Point::generator();
    assert_eq!(q.to_bytes(), expected_sum.to_affine().to_bytes());
    assert_ne!(q.to_bytes(), p.to_bytes());
}

#[test]
fn point_arithmetic_follows_multipliers() {
    let g = Point::generator();
    // 5G + 7G = 12G, and 3·(4G) = 12G
    let a = g.mul(&Scalar::from_u64(5)).add(&g.mul(&Scalar::from_u64(7)));
    let b = g.mul(&Scalar::from_u64(4)).mul(&Scalar::from_u64(3));
    assert!(a.equals(&b));
    assert!(!a.equals(&g.mul(&Scalar::from_u64(13))));
    // qG is the identity, encoded as zeros
    let qm1 = Scalar::zero().sub(&Scalar::one());
    let ident = g.mul(&qm1).add(&g);
    assert_eq!(ident.to_bytes(), [0u8; 32]);
    assert!(ident.equals(&g.mul(&Scalar::zero())));
}

#[test]
fn commit_is_value_g_plus_r_h() {
    let g = Point::generator();
    let h = g.mul(&h2s(b"QSOL_BLIND_GEN_v1"));
    let v = Scalar::from_u64(15);
    let r = h2s(b"r1_0");
    let c = commit(g, h, v, r);
    let pg = pallas::Point::generator();
    let ph = pg * to_pasta(&h2s(b"QSOL_BLIND_GEN_v1"));
    let expected = pg * pallas::Scalar::from(15u64) + ph * to_pasta(&r);
    assert_eq!(commit_bytes(c), expected.to_affine().to_bytes());
}

#[test]
fn pedersen_fold_is_commitment_to_folded_opening() {
    let g = Point::generator();
    let h = g.mul(&h2s(b"H"));
    let rg = g.mul(&h2s(b"R"));
    let (a1, b1, s1) = (Scalar::from_u64(3), Scalar::from_u64(5), h2s(b"s1"));
    let (a2, b2, s2) = (Scalar::from_u64(7), Scalar::from_u64(11), h2s(b"s2"));
    let rho = h2s(b"rho");
    let c1 = commit3(g, h, rg, a1, b1, s1);
    let c2 = commit3(g, h, rg, a2, b2, s2);
    let folded = fold_commitments(&c1, &c2, &rho);
    let opened = commit3(
        g,
        h,
        rg,
        a1.add(&rho.mul(&a2)),
        b1.add(&rho.mul(&b2)),
        s1.add(&rho.mul(&s2)),
    );
    assert!(folded.equals(&opened));
    let tampered = commit3(g, h, rg, a1.add(&rho.mul(&a2)).add(&Scalar::one()), b1.add(&rho.mul(&b2)), s1.add(&rho.mul(&s2)));
    assert!(!folded.equals(&tampered));
}

#[test]
fn two_generator_fold_is_commitment_to_folded_opening() {
    let g = Point::generator();
    let h = g.mul(&h2s(b"QSOL_BLIND_GEN_v1"));
    let rho = Scalar::from_u64(2);
    let c1 = commit(g, h, Scalar::from_u64(15), Scalar::from_u64(100));
    let c2 = commit(g, h, Scalar::from_u64(77), Scalar::from_u64(200));
    let folded = fold_commitments(&c1, &c2, &rho);
    assert!(folded.equals(&commit(g, h, Scalar::from_u64(169), Scalar::from_u64(500))));
}

#[test]
fn fs_hashes_label_and_encodings_twice() {
    let g = Point::generator();
    let p = g.mul(&Scalar::from_u64(9));
    let rho = fs(b"LABEL", &[g, p]);
    let mut ch = Sha3_512::new();
    ch.update(b"LABEL");
    ch.update(g.to_bytes());
    ch.update(p.to_bytes());
    let d = ch.finalize();
    assert_eq!(rho.to_repr(), h2s(&d).to_repr());
    // order matters
    assert!(!rho.equals(&fs(b"LABEL", &[p, g])));
}
