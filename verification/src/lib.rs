//! Folding of Pedersen commitments and of relaxed R1CS instances over the
//! Pallas curve, with Fiat-Shamir challenges drawn from SHA3-512.
pub mod field;
pub mod hash;
pub mod curve;
pub mod r1cs;
pub mod text;
pub mod commitment;
pub mod pedersen_fold;
pub mod r1cs_fold;
pub mod committed_fold;
