//! Prover backends: the mock concatenation prover, the SHA-256 committer,
//! and the STARK-shaped prover around the arithmetization layer.

pub mod envelope;
pub mod mock;
pub mod sha256_commit;
pub mod stark_prover;
