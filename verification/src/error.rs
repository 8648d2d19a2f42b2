//! Error kinds of the proof system.
//!
//! Each variant carries a short description.  `describe` renders a variant
//! as bytes — a fixed label for the kind followed by the carried text — and
//! is what failure-tagged proofs embed after their tag.

use vstd::prelude::*;
use vstd::string::StrSliceExecFns;
use vstd::utf8::encode_utf8;

verus! {

/// What went wrong while proving or verifying.
#[derive(Clone, Debug)]
pub enum ZkpError {
    /// The private input violates a length, offset or content rule.
    InvalidWitness(String),
    /// The public input is malformed.
    InvalidPublicInput(String),
    /// A constraint of the circuit does not hold.
    ConstraintNotSatisfied(String),
    /// Proof generation failed.
    ProofGenerationFailed(String),
    /// Proof verification failed.
    ProofVerificationFailed(String),
    /// The configuration is unusable.
    ConfigurationError(String),
    /// A proof envelope could not be encoded or decoded.
    SerializationError(String),
    /// An internal invariant broke.
    InternalError(String),
}

/// The fixed label of an error kind.
pub open spec fn error_label(e: ZkpError) -> Seq<char> {
    match e {
        ZkpError::InvalidWitness(_) => "Invalid witness: "@,
        ZkpError::InvalidPublicInput(_) => "Invalid public input: "@,
        ZkpError::ConstraintNotSatisfied(_) => "Constraint not satisfied: "@,
        ZkpError::ProofGenerationFailed(_) => "Proof generation failed: "@,
        ZkpError::ProofVerificationFailed(_) => "Proof verification failed: "@,
        ZkpError::ConfigurationError(_) => "Configuration error: "@,
        ZkpError::SerializationError(_) => "Serialization error: "@,
        ZkpError::InternalError(_) => "Internal error: "@,
    }
}

/// The text carried by an error.
pub open spec fn error_payload(e: ZkpError) -> Seq<char> {
    match e {
        ZkpError::InvalidWitness(s) => s@,
        ZkpError::InvalidPublicInput(s) => s@,
        ZkpError::ConstraintNotSatisfied(s) => s@,
        ZkpError::ProofGenerationFailed(s) => s@,
        ZkpError::ProofVerificationFailed(s) => s@,
        ZkpError::ConfigurationError(s) => s@,
        ZkpError::SerializationError(s) => s@,
        ZkpError::InternalError(s) => s@,
    }
}

/// The byte rendering of an error: its label, then its text.
pub open spec fn error_describe(e: ZkpError) -> Seq<u8> {
    encode_utf8(error_label(e)) + encode_utf8(error_payload(e))
}

impl ZkpError {
    /// Renders the error as bytes: the kind's label followed by the text.
    pub fn describe(&self) -> (r: Vec<u8>)
        ensures
            r@ == error_describe(*self),
    {
        let mut out: Vec<u8> = match self {
            ZkpError::InvalidWitness(_) => "Invalid witness: ".as_bytes_vec(),
            ZkpError::InvalidPublicInput(_) => "Invalid public input: ".as_bytes_vec(),
            ZkpError::ConstraintNotSatisfied(_) => "Constraint not satisfied: ".as_bytes_vec(),
            ZkpError::ProofGenerationFailed(_) => "Proof generation failed: ".as_bytes_vec(),
            ZkpError::ProofVerificationFailed(_) => "Proof verification failed: ".as_bytes_vec(),
            ZkpError::ConfigurationError(_) => "Configuration error: ".as_bytes_vec(),
            ZkpError::SerializationError(_) => "Serialization error: ".as_bytes_vec(),
            ZkpError::InternalError(_) => "Internal error: ".as_bytes_vec(),
        };
        let mut payload: Vec<u8> = match self {
            ZkpError::InvalidWitness(s) => s.as_str().as_bytes_vec(),
            ZkpError::InvalidPublicInput(s) => s.as_str().as_bytes_vec(),
            ZkpError::ConstraintNotSatisfied(s) => s.as_str().as_bytes_vec(),
            ZkpError::ProofGenerationFailed(s) => s.as_str().as_bytes_vec(),
            ZkpError::ProofVerificationFailed(s) => s.as_str().as_bytes_vec(),
            ZkpError::ConfigurationError(s) => s.as_str().as_bytes_vec(),
            ZkpError::SerializationError(s) => s.as_str().as_bytes_vec(),
            ZkpError::InternalError(s) => s.as_str().as_bytes_vec(),
        };
        out.append(&mut payload);
        out
    }
}

} // verus!
