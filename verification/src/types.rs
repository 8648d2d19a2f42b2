//! Public value types of the proof system: commitments, claims, statements,
//! witnesses and opaque proofs.

use vstd::prelude::*;
use vstd::utf8::encode_utf8;

verus! {

/// Raw bytes.
pub type Bytes = Vec<u8>;

/// A binding commitment to a document, here a SHA-256 digest.
#[derive(Clone, Debug)]
pub struct Commitment {
    pub inner: Bytes,
}

/// An opaque proof artifact.
#[derive(Clone, Debug)]
pub struct Proof {
    pub inner: Bytes,
}

/// The public statement a proof speaks about.
#[derive(Clone, Debug)]
pub struct Statement {
    pub commitment: Commitment,
    pub claim: Claim,
}

/// The disclosed predicate over the committed document.
#[derive(Clone, Debug)]
pub enum Claim {
    /// The document contains this substring.
    Substring { value: String },
}

/// The private input held by the prover.
#[derive(Clone, Debug)]
pub struct Witness {
    pub plaintext: Bytes,
}

/// The characters of the substring a claim discloses.
pub open spec fn claim_chars(c: Claim) -> Seq<char> {
    match c {
        Claim::Substring { value } => value@,
    }
}

/// The UTF-8 bytes of the substring a claim discloses.
pub open spec fn claim_bytes(c: Claim) -> Seq<u8> {
    encode_utf8(claim_chars(c))
}

} // verus!
