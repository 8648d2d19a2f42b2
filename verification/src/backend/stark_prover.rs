//! The STARK-shaped prover.
//!
//! `prove` derives the substring's offset from the witness, builds the
//! circuit trace, gates on the native byte-level checks, and packages a
//! trace commitment, the public inputs, a placeholder FRI digest and the
//! configuration into one proof envelope.  Inputs that cannot be proven
//! yield a failure-tagged proof instead of an error, so `prove` never
//! fails.  `verify` recognizes failure tags, decodes the envelope, and
//! accepts exactly when the embedded public inputs equal the statement's
//! and the structural checks pass.

use vstd::prelude::*;
use vstd::bytes::{spec_u64_to_le_bytes, u64_to_le_bytes};
use vstd::slice::slice_to_vec;
use vstd::string::StrSliceExecFns;
use vstd::utf8::encode_utf8;

use crate::backend::envelope::{
    PROOF_FORMAT_VERSION, ProofDataView, StarkProofData, bytes32_from_slice, decode_envelope,
    decode_proof_data, encode_proof_data, envelope_bytes,
};
use crate::circuits::Circuit;
use crate::circuits::air::SubstringAIR;
use crate::circuits::substring_circuit::{
    SubstringCircuit, circuit_trace_view, crosscheck_ok, hash_matches, substring_matches,
};
use crate::circuits::trace::{TraceLayout, gen_inputs_err_msg, gen_inputs_ok, trace_view};
use crate::config::{CircuitConfig, CircuitParams, CircuitWitness, PublicInputs};
use crate::error::{ZkpError, error_describe};
use crate::field::Fp;
use crate::hash::{hash, sha256_of};
use crate::search::{find_first, first_occurrence, lemma_first_occurrence, occurs, occurs_at};
use crate::traits::Prove;
use crate::types::{Claim, Proof, Statement, Witness, claim_bytes, claim_chars};

verus! {

/// Whether `b` begins with `p`.
pub open spec fn starts_with(b: Seq<u8>, p: Seq<u8>) -> bool {
    p.len() <= b.len() && b.subrange(0, p.len() as int) == p
}

/// The tag of a proof rejected before trace generation.
pub open spec fn error_tag() -> Seq<u8> {
    encode_utf8("ERROR:"@)
}

/// The tag of a proof rejected during trace generation.
pub open spec fn trace_error_tag() -> Seq<u8> {
    encode_utf8("TRACE_ERROR:"@)
}

/// The tag of a proof rejected by the constraint checks.
pub open spec fn constraint_error_tag() -> Seq<u8> {
    encode_utf8("CONSTRAINT_ERROR:"@)
}

/// The tag of a proof rejected while packaging the proof itself.
pub open spec fn stark_error_tag() -> Seq<u8> {
    encode_utf8("STARK_ERROR:"@)
}

/// Whether proof bytes carry one of the failure tags.
pub open spec fn is_failure_tagged(b: Seq<u8>) -> bool {
    ||| starts_with(b, error_tag())
    ||| starts_with(b, trace_error_tag())
    ||| starts_with(b, constraint_error_tag())
    ||| starts_with(b, stark_error_tag())
}

/// The bytes of a failure-tagged proof: the stage's tag, then the error's
/// label and text.
pub open spec fn failure_bytes(prefix: Seq<char>, label: Seq<char>, payload: Seq<char>) -> Seq<
    u8,
> {
    encode_utf8(prefix) + encode_utf8(label) + encode_utf8(payload)
}

/// The canonical byte stream of one column: each cell as eight
/// little-endian bytes.
pub open spec fn col_bytes(col: Seq<int>) -> Seq<u8>
    decreases col.len(),
{
    if col.len() == 0 {
        Seq::empty()
    } else {
        col_bytes(col.drop_last()) + spec_u64_to_le_bytes(col.last() as u64)
    }
}

/// The canonical byte stream of a whole trace, column after column.
pub open spec fn stream_bytes(tv: Seq<Seq<int>>) -> Seq<u8>
    decreases tv.len(),
{
    if tv.len() == 0 {
        Seq::empty()
    } else {
        stream_bytes(tv.drop_last()) + col_bytes(tv.last())
    }
}

/// The domain-separated stream the placeholder FRI digest covers.
pub open spec fn fri_stream_bytes(tv: Seq<Seq<int>>) -> Seq<u8> {
    encode_utf8("FRI_PROOF"@) + stream_bytes(tv)
}

/// The all-zero digest, which no accepted commitment may equal.
pub open spec fn zero_digest() -> Seq<u8> {
    Seq::new(32, |i: int| 0u8)
}

/// Whether a decoded envelope is accepted against the given public inputs:
/// the embedded inputs equal them byte for byte and the structural checks
/// pass.
pub open spec fn envelope_accepts(bytes: Seq<u8>, cm: Seq<u8>, sub: Seq<u8>) -> bool {
    match decode_envelope(bytes) {
        Some(v) => {
            &&& v.commitment == cm
            &&& v.substring == sub
            &&& v.trace_commitment.len() == 32
            &&& v.fri_proof.len() == 32
            &&& v.substring.len() > 0
            &&& v.commitment != zero_digest()
        },
        None => false,
    }
}

/// What `prove` returns, step for step: the offset is the leftmost
/// occurrence of the claimed substring; any failed precondition or check
/// yields a failure-tagged proof; otherwise the proof is the serialized
/// envelope over the honest trace.  The prover's configuration shapes the
/// parameters and the envelope; the circuit's shapes the trace — a prover
/// built by `new` uses the same configuration for both.
pub open spec fn stark_prove_result_with(
    config: CircuitConfig,
    circuit_config: CircuitConfig,
    stmt: Statement,
    w: Witness,
) -> Seq<u8> {
    let sub = claim_bytes(stmt.claim);
    let doc = w.plaintext@;
    if !occurs(doc, sub) {
        failure_bytes("ERROR: "@, "Invalid witness: "@, "substring not found in plaintext"@)
    } else if stmt.commitment.inner@.len() != 32 {
        failure_bytes("ERROR: "@, "Invalid public input: "@, "commitment must be 32 bytes"@)
    } else {
        let off = first_occurrence(doc, sub);
        if !gen_inputs_ok(circuit_config, doc, sub, off) {
            failure_bytes(
                "TRACE_ERROR: "@,
                "Invalid witness: "@,
                gen_inputs_err_msg(circuit_config, doc, sub, off),
            )
        } else {
            let tv = circuit_trace_view(circuit_config, doc, sub, off);
            if !(hash_matches(doc, stmt.commitment.inner@) && substring_matches(doc, sub, off)
                && crosscheck_ok(tv)) {
                failure_bytes(
                    "CONSTRAINT_ERROR: "@,
                    "Constraint not satisfied: "@,
                    "native byte-level checks failed"@,
                )
            } else {
                envelope_bytes(
                    ProofDataView {
                        trace_commitment: sha256_of(stream_bytes(tv))@,
                        commitment: stmt.commitment.inner@,
                        substring: sub,
                        fri_proof: sha256_of(fri_stream_bytes(tv))@,
                        max_text_len: config.max_text_len as int,
                        max_substring_len: config.max_substring_len as int,
                        enable_multi_block_sha: config.enable_multi_block_sha,
                    },
                )
            }
        }
    }
}

/// `stark_prove_result_with` for a prover whose circuit shares its
/// configuration, as `StarkProver::new` builds it.
pub open spec fn stark_prove_result(config: CircuitConfig, stmt: Statement, w: Witness) -> Seq<
    u8,
> {
    stark_prove_result_with(config, config, stmt, w)
}

/// What `verify` returns: false on every failure-tagged proof and every
/// malformed statement or envelope, and otherwise whether the envelope is
/// accepted against the statement's public inputs.
pub open spec fn stark_verify_result(stmt: Statement, proof: Seq<u8>) -> bool {
    if is_failure_tagged(proof) {
        false
    } else if stmt.commitment.inner@.len() != 32 {
        false
    } else {
        envelope_accepts(proof, stmt.commitment.inner@, claim_bytes(stmt.claim))
    }
}

/// Whether `b` begins with `p`, checked byte by byte.
fn bytes_starts_with(b: &[u8], p: &[u8]) -> (r: bool)
    ensures
        r == starts_with(b@, p@),
{
    if p.len() > b.len() {
        proof {
            assert(!starts_with(b@, p@));
        }
        return false;
    }
    let mut i: usize = 0;
    while i < p.len()
        invariant
            p@.len() <= b@.len(),
            i <= p@.len(),
            forall|j: int| 0 <= j < i ==> b@[j] == p@[j],
        decreases p@.len() - i,
    {
        if b[i] != p[i] {
            proof {
                assert(b@.subrange(0, p@.len() as int)[i as int] == b@[i as int]);
            }
            return false;
        }
        i += 1;
    }
    proof {
        assert(b@.subrange(0, p@.len() as int) =~= p@);
    }
    true
}

/// Whether two byte strings are equal.
fn bytes_eq(a: &[u8], b: &[u8]) -> (r: bool)
    ensures
        r == (a@ == b@),
{
    if a.len() != b.len() {
        return false;
    }
    let mut i: usize = 0;
    while i < a.len()
        invariant
            a@.len() == b@.len(),
            i <= a@.len(),
            forall|j: int| 0 <= j < i ==> a@[j] == b@[j],
        decreases a@.len() - i,
    {
        if a[i] != b[i] {
            return false;
        }
        i += 1;
    }
    proof {
        assert(a@ =~= b@);
    }
    true
}

/// A failure-tagged proof: the stage's tag, then the error's description.
fn failure_proof(prefix: &str, e: &ZkpError) -> (r: Vec<u8>)
    ensures
        r@ == encode_utf8(prefix@) + error_describe(*e),
{
    let mut out = prefix.as_bytes_vec();
    let mut d = e.describe();
    out.append(&mut d);
    out
}

/// The canonical byte stream of a trace: every cell of every column as
/// eight little-endian bytes, in column order.
#[verifier::loop_isolation(false)]
fn trace_stream(trace: &Vec<Vec<Fp>>) -> (r: Vec<u8>)
    ensures
        r@ == stream_bytes(trace_view(*trace)),
{
    let ghost tv = trace_view(*trace);
    let mut out: Vec<u8> = Vec::new();
    let mut c: usize = 0;
    proof {
        assert(tv.take(0) =~= Seq::<Seq<int>>::empty());
    }
    while c < trace.len()
        invariant
            c <= trace@.len(),
            out@ == stream_bytes(tv.take(c as int)),
        decreases trace@.len() - c,
    {
        let ghost col = tv[c as int];
        let rows: usize = trace[c].len();
        proof {
            assert(col == crate::circuits::trace::fp_col_view(trace@[c as int]));
            assert(col.len() == rows);
            assert(col.take(0) =~= Seq::<int>::empty());
        }
        let mut rr: usize = 0;
        while rr < rows
            invariant
                c < trace@.len(),
                rows == col.len(),
                rr <= rows,
                out@ == stream_bytes(tv.take(c as int)) + col_bytes(col.take(rr as int)),
            decreases rows - rr,
        {
            proof {
                assert(col[rr as int] == trace@[c as int]@[rr as int].value as int);
                assert(col.take(rr as int + 1).drop_last() =~= col.take(rr as int));
                assert(col.take(rr as int + 1).last() == col[rr as int]);
            }
            let mut cell_bytes = u64_to_le_bytes(trace[c][rr].value);
            out.append(&mut cell_bytes);
            rr += 1;
        }
        proof {
            assert(col.take(rows as int) =~= col);
            assert(tv.take(c as int + 1).drop_last() =~= tv.take(c as int));
            assert(tv.take(c as int + 1).last() == col);
        }
        c += 1;
    }
    proof {
        assert(tv.take(trace@.len() as int) =~= tv);
    }
    out
}

/// The STARK-shaped prover for one configuration.
pub struct StarkProver {
    pub circuit: SubstringCircuit,
    pub config: CircuitConfig,
}

impl StarkProver {
    /// A prover for `config`.
    pub fn new(config: CircuitConfig) -> (r: StarkProver)
        ensures
            r.config == config,
            r.circuit.config == config,
    {
        let circuit = SubstringCircuit::new(config);
        StarkProver { circuit, config }
    }

    /// The offset of the claimed substring inside the witness's document:
    /// the lowest index where the document carries the substring, and an
    /// invalid-witness error when the substring does not occur at all.
    pub fn extract_offset(&self, witness: &Witness, statement: &Statement) -> (r: Result<
        usize,
        ZkpError,
    >)
        ensures
            r is Ok <==> occurs(witness.plaintext@, claim_bytes(statement.claim)),
            r matches Ok(k) ==> k as int == first_occurrence(
                witness.plaintext@,
                claim_bytes(statement.claim),
            ) && occurs_at(witness.plaintext@, claim_bytes(statement.claim), k as int) && forall|
                j: int,
            |
                0 <= j < k ==> !occurs_at(witness.plaintext@, claim_bytes(statement.claim), j),
            r matches Err(e) ==> e is InvalidWitness && crate::error::error_payload(e)
                == "substring not found in plaintext"@,
    {
        let needle: Vec<u8> = match &statement.claim {
            Claim::Substring { value } => value.as_str().as_bytes_vec(),
        };
        proof {
            lemma_first_occurrence(witness.plaintext@, needle@);
        }
        match find_first(witness.plaintext.as_slice(), needle.as_slice()) {
            Some(k) => Ok(k),
            None => Err(ZkpError::InvalidWitness("substring not found in plaintext".to_owned())),
        }
    }

    /// The statement's public inputs in arithmetized form: the commitment
    /// as a fixed 32-byte digest and the claim as bytes.
    pub fn extract_public_inputs(&self, statement: &Statement) -> (r: Result<
        PublicInputs,
        ZkpError,
    >)
        ensures
            statement.commitment.inner@.len() == 32 ==> (r matches Ok(pi) && pi.commitment@
                == statement.commitment.inner@ && pi.substring@ == claim_bytes(statement.claim)),
            statement.commitment.inner@.len() != 32 ==> (r matches Err(e)
                && e is InvalidPublicInput && crate::error::error_payload(e)
                == "commitment must be 32 bytes"@),
    {
        let substring: Vec<u8> = match &statement.claim {
            Claim::Substring { value } => value.as_str().as_bytes_vec(),
        };
        if statement.commitment.inner.len() != 32 {
            return Err(ZkpError::InvalidPublicInput("commitment must be 32 bytes".to_owned()));
        }
        let commitment = bytes32_from_slice(statement.commitment.inner.as_slice());
        Ok(PublicInputs { commitment, substring })
    }

    /// Everything one prove call works on: the configuration, the public
    /// inputs, and the witness with its derived leftmost offset.
    pub fn build_circuit_params(&self, statement: &Statement, witness: &Witness) -> (r: Result<
        CircuitParams,
        ZkpError,
    >)
        ensures
            !occurs(witness.plaintext@, claim_bytes(statement.claim)) ==> (r matches Err(e)
                && e is InvalidWitness && crate::error::error_payload(e)
                == "substring not found in plaintext"@),
            occurs(witness.plaintext@, claim_bytes(statement.claim))
                && statement.commitment.inner@.len() != 32 ==> (r matches Err(e)
                && e is InvalidPublicInput && crate::error::error_payload(e)
                == "commitment must be 32 bytes"@),
            occurs(witness.plaintext@, claim_bytes(statement.claim))
                && statement.commitment.inner@.len() == 32 ==> (r matches Ok(p) && p.config
                == self.config && p.public_inputs.commitment@ == statement.commitment.inner@
                && p.public_inputs.substring@ == claim_bytes(statement.claim)
                && (p.witness matches Some(cw) && cw.plaintext@ == witness.plaintext@ && cw.offset
                as int == first_occurrence(witness.plaintext@, claim_bytes(statement.claim)))),
    {
        let offset = match self.extract_offset(witness, statement) {
            Ok(k) => k,
            Err(e) => {
                return Err(e);
            },
        };
        let public_inputs = match self.extract_public_inputs(statement) {
            Ok(pi) => pi,
            Err(e) => {
                return Err(e);
            },
        };
        Ok(
            CircuitParams {
                config: self.config,
                public_inputs,
                witness: Some(
                    CircuitWitness { plaintext: slice_to_vec(witness.plaintext.as_slice()), offset },
                ),
            },
        )
    }

    /// Passes the trace through unchanged: this backend's trace is already
    /// in the layout the envelope commits to.
    pub fn convert_trace_format(&self, trace: Vec<Vec<Fp>>) -> (r: Vec<Vec<Fp>>)
        ensures
            r == trace,
    {
        trace
    }

    /// The digest of the trace's canonical byte stream.
    pub fn compute_trace_commitment(&self, trace: &Vec<Vec<Fp>>) -> (r: Result<Vec<u8>, ZkpError>)
        ensures
            r matches Ok(v) && v@ == sha256_of(stream_bytes(trace_view(*trace)))@,
    {
        let stream = trace_stream(trace);
        let digest = hash(stream.as_slice());
        Ok(slice_to_vec(digest.as_slice()))
    }

    /// The placeholder low-degree proof: a digest over a fixed domain
    /// separator followed by the trace's canonical byte stream.
    pub fn generate_fri_proof(&self, trace: &Vec<Vec<Fp>>) -> (r: Result<Vec<u8>, ZkpError>)
        ensures
            r matches Ok(v) && v@ == sha256_of(fri_stream_bytes(trace_view(*trace)))@,
    {
        let mut tagged: Vec<u8> = "FRI_PROOF".as_bytes_vec();
        let mut stream = trace_stream(trace);
        tagged.append(&mut stream);
        let digest = hash(tagged.as_slice());
        Ok(slice_to_vec(digest.as_slice()))
    }

    /// Packages the trace commitment, public inputs, FRI placeholder and
    /// configuration into the serialized envelope.
    pub fn generate_stark_proof(
        &self,
        _air: SubstringAIR,
        trace: Vec<Vec<Fp>>,
        params: &CircuitParams,
    ) -> (r: Result<Vec<u8>, ZkpError>)
        ensures
            r matches Ok(b) && b@ == envelope_bytes(
                ProofDataView {
                    trace_commitment: sha256_of(stream_bytes(trace_view(trace)))@,
                    commitment: params.public_inputs.commitment@,
                    substring: params.public_inputs.substring@,
                    fri_proof: sha256_of(fri_stream_bytes(trace_view(trace)))@,
                    max_text_len: params.config.max_text_len as int,
                    max_substring_len: params.config.max_substring_len as int,
                    enable_multi_block_sha: params.config.enable_multi_block_sha,
                },
            ),
    {
        let trace_commitment = match self.compute_trace_commitment(&trace) {
            Ok(v) => v,
            Err(e) => {
                return Err(e);
            },
        };
        let fri_proof = match self.generate_fri_proof(&trace) {
            Ok(v) => v,
            Err(e) => {
                return Err(e);
            },
        };
        let proof_data = StarkProofData {
            trace_commitment,
            public_inputs: PublicInputs {
                commitment: params.public_inputs.commitment,
                substring: slice_to_vec(params.public_inputs.substring.as_slice()),
            },
            fri_proof,
            circuit_config: params.config,
        };
        Ok(encode_proof_data(&proof_data))
    }

    /// Decodes the envelope and accepts exactly when the embedded public
    /// inputs equal the given ones and the structural checks pass.
    pub fn verify_stark_proof(
        &self,
        _air: &SubstringAIR,
        proof_bytes: &[u8],
        public_inputs: &PublicInputs,
    ) -> (r: Result<bool, ZkpError>)
        ensures
            r matches Ok(b) ==> b == envelope_accepts(
                proof_bytes@,
                public_inputs.commitment@,
                public_inputs.substring@,
            ),
            r is Err <==> decode_envelope(proof_bytes@) is None,
    {
        let proof_data = match decode_proof_data(proof_bytes) {
            Some(d) => d,
            None => {
                return Err(
                    ZkpError::SerializationError("proof envelope failed to decode".to_owned()),
                );
            },
        };
        if !bytes_eq(
            proof_data.public_inputs.commitment.as_slice(),
            public_inputs.commitment.as_slice(),
        ) {
            return Ok(false);
        }
        if !bytes_eq(
            proof_data.public_inputs.substring.as_slice(),
            public_inputs.substring.as_slice(),
        ) {
            return Ok(false);
        }
        Ok(self.basic_proof_validation(&proof_data))
    }

    /// The structural checks on a decoded envelope: digest widths, a
    /// non-empty substring, and a commitment that is not all zero.
    pub fn basic_proof_validation(&self, proof_data: &StarkProofData) -> (r: bool)
        ensures
            r == (proof_data.trace_commitment@.len() == 32 && proof_data.fri_proof@.len() == 32
                && proof_data.public_inputs.substring@.len() > 0
                && proof_data.public_inputs.commitment@ != zero_digest()),
    {
        if proof_data.trace_commitment.len() != 32 {
            return false;
        }
        if proof_data.fri_proof.len() != 32 {
            return false;
        }
        if proof_data.public_inputs.substring.len() == 0 {
            return false;
        }
        let mut any_nonzero = false;
        let mut i: usize = 0;
        while i < 32
            invariant
                i <= 32,
                any_nonzero == exists|j: int|
                    0 <= j < i && proof_data.public_inputs.commitment@[j] != 0,
            decreases 32 - i,
        {
            if proof_data.public_inputs.commitment[i] != 0 {
                any_nonzero = true;
            }
            i += 1;
        }
        proof {
            if any_nonzero {
                assert(proof_data.public_inputs.commitment@ != zero_digest());
            } else {
                assert(proof_data.public_inputs.commitment@ =~= zero_digest());
            }
        }
        any_nonzero
    }
}

impl Prove for StarkProver {
    open spec fn prove_spec(&self, statement: Statement, witness: Witness) -> Seq<u8> {
        stark_prove_result_with(self.config, self.circuit.config, statement, witness)
    }

    open spec fn verify_spec(&self, statement: Statement, proof: Seq<u8>) -> bool {
        stark_verify_result(statement, proof)
    }

    fn prove(&self, statement: &Statement, witness: &Witness) -> (r: Proof) {
        let ghost sub = claim_bytes(statement.claim);
        let ghost doc = witness.plaintext@;
        let params = match self.build_circuit_params(statement, witness) {
            Ok(p) => p,
            Err(e) => {
                let bytes = failure_proof("ERROR: ", &e);
                proof {
                    assert(bytes@ =~= stark_prove_result_with(self.config, self.circuit.config, *statement, *witness));
                }
                return Proof { inner: bytes };
            },
        };
        let trace = match self.circuit.generate_trace(&params) {
            Ok(t) => t,
            Err(e) => {
                let bytes = failure_proof("TRACE_ERROR: ", &e);
                proof {
                    assert(bytes@ =~= stark_prove_result_with(self.config, self.circuit.config, *statement, *witness));
                }
                return Proof { inner: bytes };
            },
        };
        match self.circuit.verify_constraints(&trace, &params) {
            Ok(true) => {},
            Ok(false) => {
                let e = ZkpError::ConstraintNotSatisfied(
                    "native byte-level checks failed".to_owned(),
                );
                let bytes = failure_proof("CONSTRAINT_ERROR: ", &e);
                proof {
                    assert(bytes@ =~= stark_prove_result_with(self.config, self.circuit.config, *statement, *witness));
                }
                return Proof { inner: bytes };
            },
            Err(e) => {
                let bytes = failure_proof("CONSTRAINT_ERROR: ", &e);
                return Proof { inner: bytes };
            },
        }
        let layout = TraceLayout::default();
        let air = SubstringAIR::new(self.config, layout);
        let stark_trace = self.convert_trace_format(trace);
        match self.generate_stark_proof(air, stark_trace, &params) {
            Ok(proof_bytes) => {
                proof {
                    assert(proof_bytes@ =~= stark_prove_result_with(self.config, self.circuit.config, *statement, *witness));
                }
                Proof { inner: proof_bytes }
            },
            Err(e) => {
                let bytes = failure_proof("STARK_ERROR: ", &e);
                Proof { inner: bytes }
            },
        }
    }

    fn verify(&self, statement: &Statement, proof: &Proof) -> (r: bool) {
        let error_tag_bytes = "ERROR:".as_bytes_vec();
        let trace_tag_bytes = "TRACE_ERROR:".as_bytes_vec();
        let constraint_tag_bytes = "CONSTRAINT_ERROR:".as_bytes_vec();
        let stark_tag_bytes = "STARK_ERROR:".as_bytes_vec();
        if bytes_starts_with(proof.inner.as_slice(), error_tag_bytes.as_slice())
            || bytes_starts_with(proof.inner.as_slice(), trace_tag_bytes.as_slice())
            || bytes_starts_with(proof.inner.as_slice(), constraint_tag_bytes.as_slice())
            || bytes_starts_with(proof.inner.as_slice(), stark_tag_bytes.as_slice()) {
            return false;
        }
        let public_inputs = match self.extract_public_inputs(statement) {
            Ok(pi) => pi,
            Err(_) => {
                return false;
            },
        };
        let layout = TraceLayout::default();
        let air = SubstringAIR::new(self.config, layout);
        match self.verify_stark_proof(&air, proof.inner.as_slice(), &public_inputs) {
            Ok(b) => b,
            Err(_) => false,
        }
    }
}


/// Failure bytes carry their stage's tag: the tag's characters open the
/// prefix, and both are plain ASCII.
proof fn lemma_failure_starts_with(prefix: Seq<char>, tag: Seq<char>, label: Seq<char>, payload: Seq<char>)
    requires
        vstd::utf8::is_ascii_chars(prefix),
        vstd::utf8::is_ascii_chars(tag),
        tag.len() <= prefix.len(),
        forall|i: int| 0 <= i < tag.len() ==> prefix[i] == tag[i],
    ensures
        starts_with(failure_bytes(prefix, label, payload), encode_utf8(tag)),
{
    vstd::utf8::is_ascii_chars_encode_utf8(prefix);
    vstd::utf8::is_ascii_chars_encode_utf8(tag);
    let fb = failure_bytes(prefix, label, payload);
    assert(fb.subrange(0, tag.len() as int) =~= encode_utf8(tag));
}

/// An envelope opens with the format byte, which no failure tag does, so no
/// envelope is failure-tagged.
proof fn lemma_envelope_not_tagged(v: ProofDataView)
    ensures
        !is_failure_tagged(envelope_bytes(v)),
{
    let b = envelope_bytes(v);
    assert(b[0] == PROOF_FORMAT_VERSION);
    reveal_strlit("ERROR:");
    reveal_strlit("TRACE_ERROR:");
    reveal_strlit("CONSTRAINT_ERROR:");
    reveal_strlit("STARK_ERROR:");
    vstd::utf8::is_ascii_chars_encode_utf8("ERROR:"@);
    vstd::utf8::is_ascii_chars_encode_utf8("TRACE_ERROR:"@);
    vstd::utf8::is_ascii_chars_encode_utf8("CONSTRAINT_ERROR:"@);
    vstd::utf8::is_ascii_chars_encode_utf8("STARK_ERROR:"@);
    if starts_with(b, error_tag()) {
        assert(b.subrange(0, error_tag().len() as int)[0] == b[0]);
        assert(error_tag()[0] == 'E' as u8);
        assert(false);
    }
    if starts_with(b, trace_error_tag()) {
        assert(b.subrange(0, trace_error_tag().len() as int)[0] == b[0]);
        assert(trace_error_tag()[0] == 'T' as u8);
        assert(false);
    }
    if starts_with(b, constraint_error_tag()) {
        assert(b.subrange(0, constraint_error_tag().len() as int)[0] == b[0]);
        assert(constraint_error_tag()[0] == 'C' as u8);
        assert(false);
    }
    if starts_with(b, stark_error_tag()) {
        assert(b.subrange(0, stark_error_tag().len() as int)[0] == b[0]);
        assert(stark_error_tag()[0] == 'S' as u8);
        assert(false);
    }
}

/// Round-trip soundness: when the claimed substring occurs in the document,
/// is non-empty, both fit the configured bounds, and the statement commits
/// to the document's digest (not the all-zero digest, which verification
/// refuses), the generated proof verifies against the statement.
pub proof fn lemma_round_trip(config: CircuitConfig, stmt: Statement, w: Witness)
    requires
        occurs(w.plaintext@, claim_bytes(stmt.claim)),
        claim_bytes(stmt.claim).len() > 0,
        w.plaintext@.len() <= config.max_text_len,
        claim_bytes(stmt.claim).len() <= config.max_substring_len,
    ensures
        (stmt.commitment.inner@ == sha256_of(w.plaintext@)@ && sha256_of(w.plaintext@)@
            != zero_digest()) ==> stark_verify_result(
            stmt,
            stark_prove_result(config, stmt, w),
        ),
{
    let sub = claim_bytes(stmt.claim);
    let doc = w.plaintext@;
    if stmt.commitment.inner@ == sha256_of(doc)@ && sha256_of(doc)@ != zero_digest() {
        lemma_first_occurrence(doc, sub);
        let off = first_occurrence(doc, sub);
        assert(occurs_at(doc, sub, off));
        assert(stmt.commitment.inner@.len() == 32);
        assert(gen_inputs_ok(config, doc, sub, off));
        assert(substring_matches(doc, sub, off));
        assert(hash_matches(doc, stmt.commitment.inner@));
        crate::circuits::substring_circuit::lemma_honest_crosscheck(config, doc, sub, off);
        let tv = circuit_trace_view(config, doc, sub, off);
        let v = ProofDataView {
            trace_commitment: sha256_of(stream_bytes(tv))@,
            commitment: stmt.commitment.inner@,
            substring: sub,
            fri_proof: sha256_of(fri_stream_bytes(tv))@,
            max_text_len: config.max_text_len as int,
            max_substring_len: config.max_substring_len as int,
            enable_multi_block_sha: config.enable_multi_block_sha,
        };
        let bytes = stark_prove_result(config, stmt, w);
        assert(bytes == envelope_bytes(v));
        assert(crate::backend::envelope::view_wf(v));
        crate::backend::envelope::lemma_envelope_round_trip(v);
        lemma_envelope_not_tagged(v);
        assert(envelope_accepts(bytes, stmt.commitment.inner@, sub));
    }
}

/// Completeness of rejection: when the claimed substring does not occur in
/// the document at all, the generated proof is failure-tagged and fails
/// verification against every statement, in particular its own.
pub proof fn lemma_rejection_when_absent(config: CircuitConfig, stmt: Statement, w: Witness)
    ensures
        !occurs(w.plaintext@, claim_bytes(stmt.claim)) ==> !stark_verify_result(
            stmt,
            stark_prove_result(config, stmt, w),
        ),
{
    if !occurs(w.plaintext@, claim_bytes(stmt.claim)) {
        reveal_strlit("ERROR: ");
        reveal_strlit("ERROR:");
        lemma_failure_starts_with(
            "ERROR: "@,
            "ERROR:"@,
            "Invalid witness: "@,
            "substring not found in plaintext"@,
        );
    }
}

/// Statement binding: a proof that verifies against one statement fails
/// against every statement whose commitment bytes or claimed substring
/// differ.
pub proof fn lemma_statement_binding(stmt_a: Statement, stmt_b: Statement, proof: Seq<u8>)
    ensures
        (stark_verify_result(stmt_a, proof) && (stmt_b.commitment.inner@
            != stmt_a.commitment.inner@ || claim_chars(stmt_b.claim) != claim_chars(stmt_a.claim)))
            ==> !stark_verify_result(stmt_b, proof),
{
    if stark_verify_result(stmt_a, proof) && (stmt_b.commitment.inner@
        != stmt_a.commitment.inner@ || claim_chars(stmt_b.claim) != claim_chars(stmt_a.claim)) {
        let v = decode_envelope(proof)->Some_0;
        assert(v.commitment == stmt_a.commitment.inner@);
        assert(v.substring == claim_bytes(stmt_a.claim));
        if stmt_b.commitment.inner@.len() == 32 {
            if stmt_b.commitment.inner@ != stmt_a.commitment.inner@ {
                assert(!envelope_accepts(proof, stmt_b.commitment.inner@, claim_bytes(stmt_b.claim)));
            } else {
                assert(claim_chars(stmt_b.claim) != claim_chars(stmt_a.claim));
                if claim_bytes(stmt_b.claim) == claim_bytes(stmt_a.claim) {
                    vstd::utf8::encode_utf8_decode_utf8(claim_chars(stmt_a.claim));
                    vstd::utf8::encode_utf8_decode_utf8(claim_chars(stmt_b.claim));
                    assert(false);
                }
                assert(!envelope_accepts(proof, stmt_b.commitment.inner@, claim_bytes(stmt_b.claim)));
            }
        }
    }
}

} // verus!
