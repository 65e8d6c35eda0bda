//! Arithmetic in the Goldilocks prime field and the derivation of the
//! challenges of a STARK proof over it.
//!
//! The field (`goldilocks_field`, with `inversion` and the proof in
//! `primality` that its order is prime) and its extensions (`extension`,
//! `polynomial`) come first. On them stand the proof and its opened values
//! (`stark_proof`, with the data of `hash_types`, `fri` and `target`) and
//! the fixed sequence of operations on the transcript from which both the
//! prover and the verifier draw the same challenges (`transcript`,
//! `derivation`). The modules whose names end in `laws`, and `generators`,
//! hold what is proved of all of this for every input.

pub mod derivation;
pub mod derivation_laws;
pub mod extension;
pub mod field_laws;
pub mod fri;
pub mod generators;
pub mod goldilocks_field;
pub mod hash_types;
pub mod inversion;
pub mod polynomial;
pub mod primality;
pub mod stark_proof;
pub mod target;
pub mod transcript;
