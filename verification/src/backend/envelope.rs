//! The byte-exact proof envelope.
//!
//! A proof that is not a failure tag is one serialized record: a format
//! byte, the 32-byte trace commitment, the 32-byte document commitment, the
//! disclosed substring behind its 8-byte little-endian length, the 32-byte
//! FRI placeholder, and the circuit configuration (two 8-byte lengths and a
//! flag byte).  Decoding checks the format byte and every length before
//! accepting.

use vstd::prelude::*;
use vstd::bytes::{
    lemma_auto_spec_u64_to_from_le_bytes, spec_u64_from_le_bytes, spec_u64_to_le_bytes,
    u64_from_le_bytes, u64_to_le_bytes,
};
use vstd::slice::{slice_subrange, slice_to_vec};

use crate::config::{CircuitConfig, PublicInputs};

verus! {

/// The format byte every envelope starts with.
pub const PROOF_FORMAT_VERSION: u8 = 1;

/// Envelope bytes that are not the substring or its length field.
pub const ENVELOPE_FIXED_LEN: usize = 122;

/// The decoded form of a proof envelope.
pub struct StarkProofData {
    /// Digest of the canonical byte stream of the trace.
    pub trace_commitment: Vec<u8>,
    /// The public inputs the proof was made for.
    pub public_inputs: PublicInputs,
    /// Placeholder low-degree proof: a tagged digest of the trace stream.
    pub fri_proof: Vec<u8>,
    /// The configuration the trace was laid out under.
    pub circuit_config: CircuitConfig,
}

/// The fields of an envelope, as mathematical values.
pub ghost struct ProofDataView {
    pub trace_commitment: Seq<u8>,
    pub commitment: Seq<u8>,
    pub substring: Seq<u8>,
    pub fri_proof: Seq<u8>,
    pub max_text_len: int,
    pub max_substring_len: int,
    pub enable_multi_block_sha: bool,
}

/// The view of a decoded envelope.
pub open spec fn proof_data_view(d: StarkProofData) -> ProofDataView {
    ProofDataView {
        trace_commitment: d.trace_commitment@,
        commitment: d.public_inputs.commitment@,
        substring: d.public_inputs.substring@,
        fri_proof: d.fri_proof@,
        max_text_len: d.circuit_config.max_text_len as int,
        max_substring_len: d.circuit_config.max_substring_len as int,
        enable_multi_block_sha: d.circuit_config.enable_multi_block_sha,
    }
}

/// Fields an envelope can carry: fixed-width digests and machine-sized
/// lengths.
pub open spec fn view_wf(v: ProofDataView) -> bool {
    &&& v.trace_commitment.len() == 32
    &&& v.commitment.len() == 32
    &&& v.fri_proof.len() == 32
    &&& v.substring.len() <= u64::MAX
    &&& 0 <= v.max_text_len <= usize::MAX
    &&& 0 <= v.max_substring_len <= usize::MAX
}

/// The serialized bytes of an envelope.
pub open spec fn envelope_bytes(v: ProofDataView) -> Seq<u8> {
    seq![PROOF_FORMAT_VERSION] + v.trace_commitment + v.commitment + spec_u64_to_le_bytes(
        v.substring.len() as u64,
    ) + v.substring + v.fri_proof + spec_u64_to_le_bytes(v.max_text_len as u64)
        + spec_u64_to_le_bytes(v.max_substring_len as u64) + seq![
        if v.enable_multi_block_sha {
            1u8
        } else {
            0u8
        },
    ]
}

/// What decoding a byte string yields, if anything.
pub open spec fn decode_envelope(bytes: Seq<u8>) -> Option<ProofDataView> {
    if bytes.len() < ENVELOPE_FIXED_LEN {
        Option::None
    } else if bytes[0] != PROOF_FORMAT_VERSION {
        Option::None
    } else {
        let m = bytes.len() - ENVELOPE_FIXED_LEN;
        let len_field = spec_u64_from_le_bytes(bytes.subrange(65, 73));
        if len_field as int != m {
            Option::None
        } else {
            let mt = spec_u64_from_le_bytes(bytes.subrange(105 + m, 113 + m));
            let ms = spec_u64_from_le_bytes(bytes.subrange(113 + m, 121 + m));
            let flag = bytes[121 + m];
            if flag != 0 && flag != 1 {
                Option::None
            } else if mt > usize::MAX as u64 || ms > usize::MAX as u64 {
                Option::None
            } else {
                Option::Some(
                    ProofDataView {
                        trace_commitment: bytes.subrange(1, 33),
                        commitment: bytes.subrange(33, 65),
                        substring: bytes.subrange(73, 73 + m),
                        fri_proof: bytes.subrange(73 + m, 105 + m),
                        max_text_len: mt as int,
                        max_substring_len: ms as int,
                        enable_multi_block_sha: flag == 1,
                    },
                )
            }
        }
    }
}

/// Decoding inverts encoding: a well-formed envelope comes back field for
/// field.
pub proof fn lemma_envelope_round_trip(v: ProofDataView)
    requires
        view_wf(v),
    ensures
        decode_envelope(envelope_bytes(v)) == Option::Some(
            ProofDataView {
                max_text_len: v.max_text_len as u64 as int,
                max_substring_len: v.max_substring_len as u64 as int,
                ..v
            },
        ),
        envelope_bytes(v)[0] == PROOF_FORMAT_VERSION,
{
    lemma_auto_spec_u64_to_from_le_bytes();
    let bytes = envelope_bytes(v);
    let m = v.substring.len() as int;
    assert(spec_u64_to_le_bytes(v.substring.len() as u64).len() == 8);
    assert(bytes.len() == ENVELOPE_FIXED_LEN + m);
    assert(bytes[0] == PROOF_FORMAT_VERSION);
    assert(bytes.subrange(65, 73) =~= spec_u64_to_le_bytes(v.substring.len() as u64));
    assert(spec_u64_from_le_bytes(bytes.subrange(65, 73)) as int == m);
    assert(bytes.subrange(105 + m, 113 + m) =~= spec_u64_to_le_bytes(v.max_text_len as u64));
    assert(bytes.subrange(113 + m, 121 + m) =~= spec_u64_to_le_bytes(v.max_substring_len as u64));
    assert(bytes[121 + m] == (if v.enable_multi_block_sha {
        1u8
    } else {
        0u8
    }));
    assert(bytes.subrange(1, 33) =~= v.trace_commitment);
    assert(bytes.subrange(33, 65) =~= v.commitment);
    assert(bytes.subrange(73, 73 + m) =~= v.substring);
    assert(bytes.subrange(73 + m, 105 + m) =~= v.fri_proof);
}

/// Relies on `<[u8]>::copy_from_slice`: copies a slice into an array of the
/// same length, byte for byte.
#[verifier::external_body]
pub(crate) fn bytes32_from_slice(s: &[u8]) -> (r: [u8; 32])
    requires
        s@.len() == 32,
    ensures
        r@ == s@,
{
    let mut out = [0u8; 32];
    out.copy_from_slice(s);
    out
}

/// Serializes an envelope.
pub fn encode_proof_data(d: &StarkProofData) -> (r: Vec<u8>)
    requires
        d.trace_commitment@.len() == 32,
        d.fri_proof@.len() == 32,
    ensures
        r@ == envelope_bytes(proof_data_view(*d)),
{
    let mut out: Vec<u8> = Vec::new();
    out.push(PROOF_FORMAT_VERSION);
    let mut tc = slice_to_vec(d.trace_commitment.as_slice());
    out.append(&mut tc);
    let mut cm = slice_to_vec(d.public_inputs.commitment.as_slice());
    out.append(&mut cm);
    let mut sub_len = u64_to_le_bytes(d.public_inputs.substring.len() as u64);
    out.append(&mut sub_len);
    let mut sb = slice_to_vec(d.public_inputs.substring.as_slice());
    out.append(&mut sb);
    let mut fp = slice_to_vec(d.fri_proof.as_slice());
    out.append(&mut fp);
    let mut mt = u64_to_le_bytes(d.circuit_config.max_text_len as u64);
    out.append(&mut mt);
    let mut ms = u64_to_le_bytes(d.circuit_config.max_substring_len as u64);
    out.append(&mut ms);
    if d.circuit_config.enable_multi_block_sha {
        out.push(1u8);
    } else {
        out.push(0u8);
    }
    proof {
        assert(out@ =~= envelope_bytes(proof_data_view(*d)));
    }
    out
}

/// Parses an envelope, refusing any malformed byte string.
pub fn decode_proof_data(bytes: &[u8]) -> (r: Option<StarkProofData>)
    ensures
        r is Some <==> decode_envelope(bytes@) is Some,
        r matches Some(d) ==> decode_envelope(bytes@) == Option::Some(proof_data_view(d)),
{
    if bytes.len() < ENVELOPE_FIXED_LEN {
        return None;
    }
    if bytes[0] != PROOF_FORMAT_VERSION {
        return None;
    }
    let m: usize = bytes.len() - ENVELOPE_FIXED_LEN;
    let len_field = u64_from_le_bytes(slice_subrange(bytes, 65, 73));
    if len_field != m as u64 {
        proof {
            assert(len_field as int != m as int);
        }
        return None;
    }
    let mt = u64_from_le_bytes(slice_subrange(bytes, 105 + m, 113 + m));
    let ms = u64_from_le_bytes(slice_subrange(bytes, 113 + m, 121 + m));
    let flag = bytes[121 + m];
    if flag != 0 && flag != 1 {
        return None;
    }
    if mt > usize::MAX as u64 || ms > usize::MAX as u64 {
        return None;
    }
    let tc = slice_to_vec(slice_subrange(bytes, 1, 33));
    let commitment = bytes32_from_slice(slice_subrange(bytes, 33, 65));
    let substring = slice_to_vec(slice_subrange(bytes, 73, 73 + m));
    let fri = slice_to_vec(slice_subrange(bytes, 73 + m, 105 + m));
    let d = StarkProofData {
        trace_commitment: tc,
        public_inputs: PublicInputs { commitment, substring },
        fri_proof: fri,
        circuit_config: CircuitConfig {
            max_text_len: mt as usize,
            max_substring_len: ms as usize,
            enable_multi_block_sha: flag == 1,
        },
    };
    Some(d)
}

} // verus!
