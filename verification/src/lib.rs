//! Core of a PLONK-style zk-SNARK proving system over the BLS12-381 scalar
//! field: a composer that accumulates gate constraints, the preprocessing
//! stage that turns a composer into committed selector and permutation
//! polynomials, and the verifier-side glue around the KZG10 polynomial
//! commitment scheme.

pub mod circuit;
pub mod composer;
pub mod domain;
pub mod error;
pub mod keys;
pub mod kzg;
pub mod permutation;
pub mod preprocess;
pub mod proof_system;
pub mod scalar;
pub mod transcript;
