//! A mock prover for interface smoke tests: the proof is the claimed
//! substring followed by the whole plaintext, and verification just looks
//! for the substring among the proof bytes.

use vstd::prelude::*;
use vstd::slice::slice_to_vec;
use vstd::string::StrSliceExecFns;

use crate::search::{find_first, occurs};
use crate::traits::Prove;
use crate::types::{Claim, Proof, Statement, Witness, claim_bytes};

verus! {

/// The mock prover.
pub struct MockProver;

impl Prove for MockProver {
    open spec fn prove_spec(&self, statement: Statement, witness: Witness) -> Seq<u8> {
        claim_bytes(statement.claim) + witness.plaintext@
    }

    open spec fn verify_spec(&self, statement: Statement, proof: Seq<u8>) -> bool {
        occurs(proof, claim_bytes(statement.claim))
    }

    fn prove(&self, statement: &Statement, witness: &Witness) -> (r: Proof) {
        let mut proof_data: Vec<u8> = Vec::new();
        match &statement.claim {
            Claim::Substring { value } => {
                let mut cb = value.as_str().as_bytes_vec();
                proof_data.append(&mut cb);
            },
        }
        let mut pt = slice_to_vec(witness.plaintext.as_slice());
        proof_data.append(&mut pt);
        Proof { inner: proof_data }
    }

    fn verify(&self, statement: &Statement, proof: &Proof) -> (r: bool) {
        match &statement.claim {
            Claim::Substring { value } => {
                let needle = value.as_str().as_bytes_vec();
                find_first(proof.inner.as_slice(), needle.as_slice()).is_some()
            },
        }
    }
}

} // verus!
