use qsol_nova::field::Scalar;
use qsol_nova::r1cs::{fold, satisfied, Rlx, R1CS};

fn s(v: u64) -> Scalar {
    Scalar::from_u64(v)
}

fn z(x: u64, w1: u64, w2: u64) -> Vec<Scalar> {
    vec![s(x), s(w1), s(w2)]
}

fn neg(v: u64) -> Scalar {
    Scalar::zero().sub(&s(v))
}

#[test]
fn product_circuit_accepts_exact_products() {
    let r = R1CS::new();
    assert!(satisfied(&r, s(1), s(0), &z(15, 3, 5)));
    assert!(satisfied(&r, s(1), s(0), &z(77, 7, 11)));
    assert!(!satisfied(&r, s(1), s(0), &z(16, 3, 5)));
    assert!(!satisfied(&r, s(1), s(1), &z(15, 3, 5)));
}

#[test]
fn dot_products_pick_entries() {
    let r = R1CS::new();
    let w = z(15, 3, 5);
    assert!(r.az(&w).equals(&s(3)));
    assert!(r.bz(&w).equals(&s(5)));
    assert!(r.cz(&w).equals(&s(15)));
    // over the shorter length
    assert!(R1CS::dot(&[s(2), s(3), s(4)], &[s(10), s(100)]).equals(&s(320)));
    assert!(R1CS::dot(&[], &[s(1)]).equals(&s(0)));
}

#[test]
fn fold_with_challenge_two_exact() {
    let r = R1CS::new();
    let i1 = Rlx { u: s(1), e: s(0), z: z(15, 3, 5) };
    let i2 = Rlx { u: s(1), e: s(0), z: z(77, 7, 11) };
    let (f, t) = fold(&r, &i1, &i2, s(2));
    // T = 3·11 + 7·5 − 77 − 15 = −24
    assert!(t.equals(&neg(24)));
    assert!(f.u.equals(&s(3)));
    assert!(f.e.equals(&neg(48)));
    assert_eq!(f.z.len(), 3);
    assert!(f.z[0].equals(&s(169)));
    assert!(f.z[1].equals(&s(17)));
    assert!(f.z[2].equals(&s(27)));
    // 17 · 27 = 459 = 3 · 169 − 48
    assert!(satisfied(&r, f.u, f.e, &f.z));
}

#[test]
fn fold_preserves_satisfaction_for_any_challenge() {
    let r = R1CS::new();
    let i1 = Rlx { u: s(1), e: s(0), z: z(6, 2, 3) };
    let i2 = Rlx { u: s(1), e: s(0), z: z(20, 4, 5) };
    for rho in [s(0), s(1), s(99), neg(1), neg(12345)] {
        let (f, _t) = fold(&r, &i1, &i2, rho);
        assert!(satisfied(&r, f.u, f.e, &f.z));
    }
}

#[test]
fn folding_relaxed_instances_stays_satisfied() {
    // fold twice: the accumulator is a relaxed instance with u != 1, E != 0
    let r = R1CS::new();
    let i1 = Rlx { u: s(1), e: s(0), z: z(15, 3, 5) };
    let i2 = Rlx { u: s(1), e: s(0), z: z(77, 7, 11) };
    let (acc, _) = fold(&r, &i1, &i2, s(5));
    let i3 = Rlx { u: s(1), e: s(0), z: z(8, 2, 4) };
    let (acc2, _) = fold(&r, &acc, &i3, s(9));
    assert!(satisfied(&r, acc2.u, acc2.e, &acc2.z));
}

#[test]
fn tampered_error_is_rejected() {
    let r = R1CS::new();
    let i1 = Rlx { u: s(1), e: s(0), z: z(15, 3, 5) };
    let i2 = Rlx { u: s(1), e: s(0), z: z(77, 7, 11) };
    let (f, _) = fold(&r, &i1, &i2, s(7));
    assert!(!satisfied(&r, f.u, f.e.add(&s(1)), &f.z));
}

#[test]
fn tampered_input_is_rejected_unless_u_is_zero() {
    let r = R1CS::new();
    let i1 = Rlx { u: s(1), e: s(0), z: z(15, 3, 5) };
    let i2 = Rlx { u: s(1), e: s(0), z: z(77, 7, 11) };
    let (f, _) = fold(&r, &i1, &i2, s(7));
    let bad = vec![f.z[0].add(&s(1)), f.z[1], f.z[2]];
    assert!(!satisfied(&r, f.u, f.e, &bad));
    // ρ = −1 gives u = 0, and then x is not constrained
    let (g, _) = fold(&r, &i1, &i2, neg(1));
    assert!(g.u.equals(&s(0)));
    let bad = vec![g.z[0].add(&s(1)), g.z[1], g.z[2]];
    assert!(satisfied(&r, g.u, g.e, &bad));
}

#[test]
fn fold_with_unequal_witness_lengths_can_break_satisfaction() {
    // a = [0, 1], b = [0, 1], c = [0, 0]
    let r = R1CS { a: vec![s(0), s(1)], b: vec![s(0), s(1)], c: vec![s(0), s(0)] };
    let i1 = Rlx { u: s(1), e: s(25), z: vec![s(0), s(5)] };
    let i2 = Rlx { u: s(1), e: s(0), z: vec![s(0)] };
    assert!(satisfied(&r, i1.u, i1.e, &i1.z));
    assert!(satisfied(&r, i2.u, i2.e, &i2.z));
    let (f, _) = fold(&r, &i1, &i2, s(3));
    assert_eq!(f.z.len(), 1);
    assert!(!satisfied(&r, f.u, f.e, &f.z));
}
