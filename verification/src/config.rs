//! Circuit configuration and the inputs of one prove or verify call.

use vstd::prelude::*;

verus! {

/// Size bounds of the arithmetized statement.
#[derive(Clone, Copy, Debug, PartialEq, Eq, Structural)]
pub struct CircuitConfig {
    /// Largest accepted document length, in bytes.
    pub max_text_len: usize,
    /// Largest accepted substring length, in bytes.
    pub max_substring_len: usize,
    /// Whether documents longer than one SHA-256 block are supported.
    pub enable_multi_block_sha: bool,
}

/// Bounds that keep every size computation over a configuration inside
/// `usize`: the constraint count is 32 plus four times the document bound.
pub open spec fn config_wf(c: CircuitConfig) -> bool {
    32 + 4 * (c.max_text_len as int) <= usize::MAX as int
}

impl Default for CircuitConfig {
    /// A single SHA-256 block: up to 55 document bytes before padding.
    fn default() -> (r: CircuitConfig)
        ensures
            r.max_text_len == 55,
            r.max_substring_len == 32,
            !r.enable_multi_block_sha,
    {
        CircuitConfig { max_text_len: 55, max_substring_len: 32, enable_multi_block_sha: false }
    }
}

/// The public inputs of the arithmetized statement.
#[derive(Clone, Debug)]
pub struct PublicInputs {
    /// SHA-256 commitment to the document.
    pub commitment: [u8; 32],
    /// The disclosed substring.
    pub substring: Vec<u8>,
}

/// The private inputs of the arithmetized statement.
#[derive(Clone, Debug)]
pub struct CircuitWitness {
    /// The full document.
    pub plaintext: Vec<u8>,
    /// Where the substring starts inside the document.
    pub offset: usize,
}

/// Everything one prove or verify call works on.  The witness is present
/// when proving and absent when verifying.
#[derive(Clone, Debug)]
pub struct CircuitParams {
    pub config: CircuitConfig,
    pub public_inputs: PublicInputs,
    pub witness: Option<CircuitWitness>,
}

} // verus!
