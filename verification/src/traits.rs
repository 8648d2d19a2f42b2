//! The capability surface of the proof system: committing to bytes, and
//! proving and verifying statements.
//!
//! Each implementation pins its behaviour through the trait's spec
//! functions, so callers of `prove` and `verify` know exactly what bytes
//! come back and when verification succeeds.

use vstd::prelude::*;

use crate::types::{Commitment, Proof, Statement, Witness};

verus! {

/// Commits to a byte string.
pub trait Commit {
    /// The bytes of the commitment this implementation produces.
    spec fn commit_spec(&self, input: Seq<u8>) -> Seq<u8>;

    /// Commits to `input`.
    fn commit(&self, input: &[u8]) -> (r: Commitment)
        ensures
            r.inner@ == self.commit_spec(input@),
    ;
}

/// Produces and checks proofs for statements.
pub trait Prove {
    /// The proof bytes this implementation produces.
    spec fn prove_spec(&self, statement: Statement, witness: Witness) -> Seq<u8>;

    /// Whether this implementation accepts a proof for a statement.
    spec fn verify_spec(&self, statement: Statement, proof: Seq<u8>) -> bool;

    /// Proves `statement` with `witness`; never fails, but unsatisfiable
    /// inputs yield a proof that `verify` rejects.
    fn prove(&self, statement: &Statement, witness: &Witness) -> (r: Proof)
        ensures
            r.inner@ == self.prove_spec(*statement, *witness),
    ;

    /// Checks `proof` against `statement`, without any witness.
    fn verify(&self, statement: &Statement, proof: &Proof) -> (r: bool)
        ensures
            r == self.verify_spec(*statement, proof.inner@),
    ;
}

} // verus!
