//! Committing to bytes with SHA-256.

use vstd::prelude::*;
use vstd::slice::slice_to_vec;

use crate::hash::{hash, sha256_of};
use crate::traits::Commit;
use crate::types::Commitment;

verus! {

/// A committer whose commitment is the SHA-256 digest of the input.
pub struct Sha256Commit;

impl Commit for Sha256Commit {
    open spec fn commit_spec(&self, input: Seq<u8>) -> Seq<u8> {
        sha256_of(input)@
    }

    fn commit(&self, input: &[u8]) -> (r: Commitment) {
        let digest = hash(input);
        Commitment { inner: slice_to_vec(digest.as_slice()) }
    }
}

} // verus!
