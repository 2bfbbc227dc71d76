# qsol_nova

Folding on the Pallas curve, verified with Verus.

- `src/field.rs`: the scalar field F_q (canonical 32-byte representations), with
  arithmetic done by `pasta_curves` and specified modulo q; congruence lemmas.
- `src/curve.rs`: Pallas points, viewed as the multiplier k of the generator G.
- `src/hash.rs`: SHA3-512, the digest-to-scalar map `h2s`, evidence signature lines.
- `src/commitment.rs`: Pedersen commitments, their fold, the Fiat-Shamir challenge
  `fs`, and the folding laws for commitments.
- `src/r1cs.rs`: one-row relaxed R1CS, the Nova fold with its cross term, and the
  laws: folding preserves satisfaction, the circuit w1·w2 = x, tamper rejection.
- `src/pedersen_fold.rs`, `src/r1cs_fold.rs`, `src/committed_fold.rs`: the three
  constructions end to end, with their evidence records.
- `src/text.rs`: hexadecimal and decimal renderings.
- `app/`: the executable that runs a construction, prints it and writes the
  evidence files (`qsol_nova`, `qsol_nova fold_r1cs`, `qsol_nova fold_committed`).
