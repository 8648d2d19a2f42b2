//! End-to-end scenarios: statement binding, failure tags, large documents,
//! boundary sizes, and the mock backend.

use sha2::{Digest, Sha256};

use zkp_rs::backend::mock::MockProver;
use zkp_rs::backend::sha256_commit::Sha256Commit;
use zkp_rs::backend::stark_prover::StarkProver;
use zkp_rs::circuits::trace::TraceGenerator;
use zkp_rs::config::{CircuitConfig, CircuitParams, CircuitWitness, PublicInputs};
use zkp_rs::error::ZkpError;
use zkp_rs::traits::{Commit, Prove};
use zkp_rs::types::{Claim, Commitment, Proof, Statement, Witness};

fn statement_for(plaintext: &[u8], substring: &str) -> Statement {
    let digest = Sha256::digest(plaintext);
    Statement {
        commitment: Commitment {
            inner: digest.to_vec(),
        },
        claim: Claim::Substring {
            value: substring.to_string(),
        },
    }
}

#[test]
fn absent_substring_yields_error_tagged_proof() {
    let prover = StarkProver::new(CircuitConfig::default());
    let plaintext = b"hello world!".to_vec();
    let statement = statement_for(&plaintext, "goodbye");
    let witness = Witness { plaintext };

    let proof = prover.prove(&statement, &witness);
    assert!(proof.inner.starts_with(b"ERROR:"));
    assert!(!prover.verify(&statement, &proof));
}

#[test]
fn verify_rejects_different_claim() {
    let prover = StarkProver::new(CircuitConfig::default());
    let plaintext = b"hello world!".to_vec();
    let statement = statement_for(&plaintext, "hello");
    let witness = Witness {
        plaintext: plaintext.clone(),
    };

    let proof = prover.prove(&statement, &witness);
    assert!(prover.verify(&statement, &proof));

    let other = statement_for(&plaintext, "different");
    assert!(!prover.verify(&other, &proof));
}

#[test]
fn verify_rejects_different_commitment() {
    let prover = StarkProver::new(CircuitConfig::default());
    let plaintext = b"hello world!".to_vec();
    let statement = statement_for(&plaintext, "hello");
    let witness = Witness {
        plaintext: plaintext.clone(),
    };

    let proof = prover.prove(&statement, &witness);
    assert!(prover.verify(&statement, &proof));

    let mut other = statement_for(&plaintext, "hello");
    other.commitment.inner[0] ^= 0xff;
    assert!(!prover.verify(&other, &proof));
}

#[test]
fn hundred_byte_document_with_late_offset() {
    let config = CircuitConfig {
        max_text_len: 128,
        max_substring_len: 16,
        enable_multi_block_sha: false,
    };
    let prover = StarkProver::new(config.clone());

    let mut plaintext = vec![b'a'; 100];
    plaintext[70..81].copy_from_slice(b"hello world");
    let statement = statement_for(&plaintext, "hello world");
    let witness = Witness {
        plaintext: plaintext.clone(),
    };

    let offset = prover.extract_offset(&witness, &statement).unwrap();
    assert_eq!(offset, 70);

    let generator = TraceGenerator::new(config.clone());
    let params = CircuitParams {
        config,
        public_inputs: PublicInputs {
            commitment: Sha256::digest(&plaintext).into(),
            substring: b"hello world".to_vec(),
        },
        witness: Some(CircuitWitness { plaintext, offset }),
    };
    assert!(generator.compute_trace_length(&params) >= 100);
    let trace = generator.generate_trace(&params).unwrap();
    assert!(trace[0].len() >= 100);

    let proof = prover.prove(&statement, &witness);
    assert!(prover.verify(&statement, &proof));
}

#[test]
fn verify_rejects_literal_error_string() {
    let prover = StarkProver::new(CircuitConfig::default());
    let plaintext = b"hello world!".to_vec();
    let statement = statement_for(&plaintext, "hello");

    let proof = Proof {
        inner: b"ERROR: anything".to_vec(),
    };
    assert!(!prover.verify(&statement, &proof));
}

#[test]
fn verify_rejects_empty_substring() {
    let prover = StarkProver::new(CircuitConfig::default());
    let plaintext = b"hello world!".to_vec();
    let statement = statement_for(&plaintext, "");
    let witness = Witness { plaintext };

    // The empty substring occurs trivially, so proving succeeds, but the
    // structural checks refuse an empty disclosed substring.
    let proof = prover.prove(&statement, &witness);
    assert!(!prover.verify(&statement, &proof));
}

#[test]
fn wrong_commitment_yields_constraint_tagged_proof() {
    let prover = StarkProver::new(CircuitConfig::default());
    let plaintext = b"hello world!".to_vec();
    let mut statement = statement_for(&plaintext, "hello");
    statement.commitment.inner[0] ^= 0xff;
    let witness = Witness { plaintext };

    let proof = prover.prove(&statement, &witness);
    assert!(proof.inner.starts_with(b"CONSTRAINT_ERROR:"));
    assert!(!prover.verify(&statement, &proof));
}

#[test]
fn short_commitment_yields_error_tagged_proof() {
    let prover = StarkProver::new(CircuitConfig::default());
    let plaintext = b"hello world!".to_vec();
    let statement = Statement {
        commitment: Commitment {
            inner: vec![1, 2, 3],
        },
        claim: Claim::Substring {
            value: "hello".to_string(),
        },
    };
    let witness = Witness { plaintext };

    let proof = prover.prove(&statement, &witness);
    assert!(proof.inner.starts_with(b"ERROR:"));
    assert!(!prover.verify(&statement, &proof));

    let err = prover.extract_public_inputs(&statement).unwrap_err();
    assert!(matches!(err, ZkpError::InvalidPublicInput(_)));
}

#[test]
fn document_at_and_over_the_length_bound() {
    let config = CircuitConfig::default();
    let prover = StarkProver::new(config.clone());

    let at_bound = vec![b'x'; config.max_text_len];
    let statement = statement_for(&at_bound, "x");
    let witness = Witness {
        plaintext: at_bound,
    };
    let proof = prover.prove(&statement, &witness);
    assert!(prover.verify(&statement, &proof));

    let over_bound = vec![b'x'; config.max_text_len + 1];
    let statement = statement_for(&over_bound, "x");
    let witness = Witness {
        plaintext: over_bound,
    };
    let proof = prover.prove(&statement, &witness);
    assert!(proof.inner.starts_with(b"TRACE_ERROR:"));
    assert!(!prover.verify(&statement, &proof));
}

#[test]
fn offset_extraction_is_leftmost() {
    let prover = StarkProver::new(CircuitConfig::default());
    let plaintext = b"abcabcabc".to_vec();
    let statement = statement_for(&plaintext, "abc");
    let witness = Witness { plaintext };

    assert_eq!(prover.extract_offset(&witness, &statement).unwrap(), 0);

    let plaintext = b"xxabcxxabc".to_vec();
    let statement = statement_for(&plaintext, "abc");
    let witness = Witness { plaintext };
    assert_eq!(prover.extract_offset(&witness, &statement).unwrap(), 2);

    let plaintext = b"xyz".to_vec();
    let statement = statement_for(&plaintext, "abc");
    let witness = Witness { plaintext };
    let err = prover.extract_offset(&witness, &statement).unwrap_err();
    assert!(matches!(err, ZkpError::InvalidWitness(_)));
}

#[test]
fn num_constraints_is_fixed_by_the_configuration() {
    let config = CircuitConfig::default();
    let layout = zkp_rs::circuits::trace::TraceLayout::default();
    let air = zkp_rs::circuits::air::SubstringAIR::new(config, layout);
    assert_eq!(air.num_constraints(), 32 + 4 * 55);

    let config = CircuitConfig {
        max_text_len: 32,
        max_substring_len: 16,
        enable_multi_block_sha: false,
    };
    let layout = zkp_rs::circuits::trace::TraceLayout::default();
    let air = zkp_rs::circuits::air::SubstringAIR::new(config, layout);
    assert_eq!(air.num_constraints(), 160);
}

#[test]
fn air_accepts_honest_trace_of_constant_substring() {
    // Every substring-matching constraint compares each window cell against
    // every disclosed byte, so only a trace whose disclosed bytes are all
    // equal can satisfy the whole family.
    let config = CircuitConfig::default();
    let plaintext = b"aaaa".to_vec();
    let substring = b"aa".to_vec();
    let public_inputs = PublicInputs {
        commitment: Sha256::digest(&plaintext).into(),
        substring: substring.clone(),
    };
    let params = CircuitParams {
        config: config.clone(),
        public_inputs: PublicInputs {
            commitment: public_inputs.commitment,
            substring,
        },
        witness: Some(CircuitWitness {
            plaintext,
            offset: 0,
        }),
    };
    let generator = TraceGenerator::new(config.clone());
    let trace = generator.generate_trace(&params).unwrap();
    let layout = zkp_rs::circuits::trace::TraceLayout::default();
    let air = zkp_rs::circuits::air::SubstringAIR::new(config, layout);
    assert!(air.verify_all_constraints(&trace, &public_inputs).unwrap());

    // On an accepted trace the indicator column is boolean and sums to the
    // disclosed substring's length.
    let ind = &trace[99];
    assert!(ind.iter().all(|c| c.value == 0 || c.value == 1));
    let total: u64 = ind.iter().map(|c| c.value).sum();
    assert_eq!(total, 2);
}

#[test]
fn air_rejects_tampered_boolean_column() {
    let config = CircuitConfig::default();
    let plaintext = b"aaaa".to_vec();
    let substring = b"aa".to_vec();
    let public_inputs = PublicInputs {
        commitment: Sha256::digest(&plaintext).into(),
        substring: substring.clone(),
    };
    let params = CircuitParams {
        config: config.clone(),
        public_inputs: PublicInputs {
            commitment: public_inputs.commitment,
            substring,
        },
        witness: Some(CircuitWitness {
            plaintext,
            offset: 0,
        }),
    };
    let generator = TraceGenerator::new(config.clone());
    let mut trace = generator.generate_trace(&params).unwrap();
    // A non-boolean match flag outside the window violates its constraint.
    trace[98][10] = zkp_rs::field::Fp { value: 2 };
    let layout = zkp_rs::circuits::trace::TraceLayout::default();
    let air = zkp_rs::circuits::air::SubstringAIR::new(config, layout);
    assert!(!air.verify_all_constraints(&trace, &public_inputs).unwrap());
}

#[test]
fn verify_rejects_padded_envelope() {
    let prover = StarkProver::new(CircuitConfig::default());
    let plaintext = b"hello world!".to_vec();
    let statement = statement_for(&plaintext, "hello");
    let witness = Witness { plaintext };

    let proof = prover.prove(&statement, &witness);
    assert!(prover.verify(&statement, &proof));

    let mut padded = proof.inner.clone();
    padded.push(0);
    assert!(!prover.verify(&statement, &Proof { inner: padded }));
}

#[test]
fn mock_prover_round_trip() {
    let prover = MockProver;
    let plaintext = b"some secret text".to_vec();
    let statement = Statement {
        commitment: Commitment { inner: vec![0; 32] },
        claim: Claim::Substring {
            value: "secret".to_string(),
        },
    };
    let witness = Witness { plaintext };

    let proof = prover.prove(&statement, &witness);
    assert!(prover.verify(&statement, &proof));

    let other = Statement {
        commitment: Commitment { inner: vec![0; 32] },
        claim: Claim::Substring {
            value: "absent!".to_string(),
        },
    };
    assert!(!prover.verify(&other, &proof));
}

#[test]
fn sha256_commit_matches_reference_digest() {
    let committer = Sha256Commit;
    let commitment = committer.commit(b"hello world!");
    let expected = Sha256::digest(b"hello world!");
    assert_eq!(commitment.inner, expected.to_vec());
}
