use ff::{Field, PrimeField};
use pasta_curves::pallas;
use qsol_nova::field::Scalar;
use qsol_nova::hash::{h2s, signature_line};
use qsol_nova::text::hex;
use sha3::{Digest, Sha3_512};

fn le32(v: u64) -> [u8; 32] {
    let mut b = [0u8; 32];
    b[..8].copy_from_slice(&v.to_le_bytes());
    b
}

/// q - 2, little-endian.
fn q_minus(k: u8) -> [u8; 32] {
    let mut b = [0u8; 32];
    let q_low: [u8; 16] = [
        0x01, 0x00, 0x00, 0x00, 0x21, 0xeb, 0x46, 0x8c, 0xdd, 0xa8, 0x94, 0x09, 0xfc, 0x98, 0x46,
        0x22,
    ];
    b[..16].copy_from_slice(&q_low);
    b[31] = 0x40;
    // subtract k from the low limb (no borrow beyond the first four bytes for small k)
    let low = u32::from_le_bytes([b[0], b[1], b[2], b[3]]);
    let (v, borrow) = low.overflowing_sub(k as u32);
    b[..4].copy_from_slice(&v.to_le_bytes());
    if borrow {
        b[4] -= 1;
    }
    b
}

/// The digest-to-scalar map, written directly against pasta_curves.
fn reference_h2s(label: &[u8]) -> pallas::Scalar {
    let mut h = Sha3_512::new();
    h.update(label);
    let d = h.finalize();
    let mut s = pallas::Scalar::ZERO;
    let mut p = pallas::Scalar::ONE;
    let shift = pallas::Scalar::from(u64::MAX) + pallas::Scalar::ONE;
    for i in 0..4 {
        let v = u64::from_le_bytes(d[i * 8..(i + 1) * 8].try_into().unwrap());
        s += pallas::Scalar::from(v) * p;
        p *= shift;
    }
    s
}

#[test]
fn scalar_from_u64_is_little_endian() {
    assert_eq!(Scalar::from_u64(0x0102).to_repr(), le32(0x0102));
    assert_eq!(Scalar::from_u64(u64::MAX).to_repr(), le32(u64::MAX));
    assert_eq!(Scalar::zero().to_repr(), [0u8; 32]);
    assert_eq!(Scalar::one().to_repr(), le32(1));
}

#[test]
fn scalar_add_mul_exact() {
    let a = Scalar::from_u64(3);
    let b = Scalar::from_u64(5);
    assert_eq!(a.add(&b).to_repr(), le32(8));
    assert_eq!(Scalar::from_u64(7).mul(&Scalar::from_u64(11)).to_repr(), le32(77));
}

#[test]
fn scalar_add_wraps_modulo_q() {
    // (q - 1) + 2 = 1
    let qm1 = Scalar::from_repr(q_minus(1)).unwrap();
    assert_eq!(qm1.add(&Scalar::from_u64(2)).to_repr(), le32(1));
    // (q - 1)(q - 1) = 1
    assert_eq!(qm1.mul(&qm1).to_repr(), le32(1));
}

#[test]
fn scalar_sub_wraps_modulo_q() {
    let d = Scalar::from_u64(3).sub(&Scalar::from_u64(5));
    assert_eq!(d.to_repr(), q_minus(2));
    assert_eq!(Scalar::from_u64(5).sub(&Scalar::from_u64(3)).to_repr(), le32(2));
}

#[test]
fn scalar_equality() {
    assert!(Scalar::from_u64(4).equals(&Scalar::from_u64(2).add(&Scalar::from_u64(2))));
    assert!(!Scalar::from_u64(4).equals(&Scalar::from_u64(5)));
}

#[test]
fn scalar_from_repr_rejects_q_and_above() {
    assert!(Scalar::from_repr(q_minus(0)).is_none());
    assert!(Scalar::from_repr([0xff; 32]).is_none());
    assert!(Scalar::from_repr(q_minus(1)).is_some());
    assert_eq!(Scalar::from_repr(le32(9)).unwrap().to_repr(), le32(9));
}

#[test]
fn h2s_matches_reference_algorithm() {
    for label in [&b"QSOL_H_GEN_v1"[..], b"rand_1", b"", b"r2_2"] {
        assert_eq!(h2s(label).to_repr(), reference_h2s(label).to_repr());
    }
}

#[test]
fn h2s_is_first_half_of_digest_modulo_q() {
    // The first 32 digest bytes, read little-endian, reduced modulo q.
    let d: [u8; 64] = Sha3_512::digest(b"rand_1").into();
    let mut expected = pallas::Scalar::ZERO;
    let mut p = pallas::Scalar::ONE;
    for b in d[..32].iter() {
        expected += pallas::Scalar::from(*b as u64) * p;
        p *= pallas::Scalar::from(256u64);
    }
    assert_eq!(h2s(b"rand_1").to_repr(), expected.to_repr());
}

#[test]
fn hex_renders_lowercase_pairs() {
    assert_eq!(hex(&[0x00, 0xab, 0x0f, 0xf0]), "00ab0ff0");
    assert_eq!(hex(&[]), "");
}

#[test]
fn signature_line_hashes_the_record() {
    let record = "QSOL_FOLD_V1\nscheme = x\n";
    let line = signature_line(record);
    let d: [u8; 64] = Sha3_512::digest(record.as_bytes()).into();
    assert_eq!(line, format!("sha3-512:{}\n", hex(&d)));
}
