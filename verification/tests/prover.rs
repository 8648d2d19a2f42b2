//! Tests of the STARK-shaped prover, the constraint system, the circuit and
//! the trace generator.

use sha2::{Digest, Sha256};

use zkp_rs::backend::stark_prover::StarkProver;
use zkp_rs::circuits::air::{ConstraintPolynomialBuilder, SubstringAIR};
use zkp_rs::circuits::substring_circuit::SubstringCircuit;
use zkp_rs::circuits::trace::{TraceGenerator, TraceLayout};
use zkp_rs::circuits::Circuit;
use zkp_rs::config::{CircuitConfig, CircuitParams, CircuitWitness, PublicInputs};
use zkp_rs::traits::Prove;
use zkp_rs::types::{Claim, Commitment, Statement, Witness};

#[test]
fn test_stark_prover_creation() {
    let config = CircuitConfig {
        max_text_len: 32,
        max_substring_len: 16,
        enable_multi_block_sha: false,
    };

    let prover = StarkProver::new(config.clone());
    assert_eq!(prover.config.max_text_len, config.max_text_len);
}

#[test]
fn test_prove_and_verify_success() {
    let config = CircuitConfig {
        max_text_len: 32,
        max_substring_len: 16,
        enable_multi_block_sha: false,
    };

    let prover = StarkProver::new(config);

    let plaintext = b"hello world!".to_vec();
    let substring = "hello".to_string();

    let hash = Sha256::digest(&plaintext);
    let commitment = Commitment {
        inner: hash.to_vec(),
    };

    let statement = Statement {
        commitment,
        claim: Claim::Substring { value: substring },
    };

    let witness = Witness { plaintext };

    let proof = prover.prove(&statement, &witness);

    let is_valid = prover.verify(&statement, &proof);
    assert!(is_valid, "Proof should be valid");
}

#[test]
fn test_prove_and_verify_failure() {
    let config = CircuitConfig {
        max_text_len: 32,
        max_substring_len: 16,
        enable_multi_block_sha: false,
    };

    let prover = StarkProver::new(config);

    let plaintext = b"hello world!".to_vec();
    let substring = "goodbye".to_string();

    let hash = Sha256::digest(&plaintext);
    let commitment = Commitment {
        inner: hash.to_vec(),
    };

    let statement = Statement {
        commitment,
        claim: Claim::Substring { value: substring },
    };

    let witness = Witness { plaintext };

    let proof = prover.prove(&statement, &witness);

    let is_valid = prover.verify(&statement, &proof);
    assert!(
        !is_valid,
        "Proof should be invalid for non-matching substring"
    );
}

#[test]
fn test_extract_offset() {
    let config = CircuitConfig {
        max_text_len: 32,
        max_substring_len: 16,
        enable_multi_block_sha: false,
    };

    let prover = StarkProver::new(config);

    let plaintext = b"hello world!".to_vec();
    let witness = Witness { plaintext };

    let statement = Statement {
        commitment: Commitment { inner: vec![0; 32] },
        claim: Claim::Substring {
            value: "world".to_string(),
        },
    };

    let offset = prover.extract_offset(&witness, &statement).unwrap();
    assert_eq!(offset, 6);
}

#[test]
fn test_constraint_evaluation() {
    let config = CircuitConfig::default();
    let layout = TraceLayout::default();
    let air = SubstringAIR::new(config.clone(), layout);

    let plaintext = b"hello world!".to_vec();
    let substring = b"hello".to_vec();

    let mut hasher = Sha256::new();
    hasher.update(&plaintext);
    let commitment = hasher.finalize().into();

    let public_inputs = PublicInputs {
        commitment,
        substring,
    };

    let params = CircuitParams {
        config: config.clone(),
        public_inputs: PublicInputs {
            commitment: public_inputs.commitment,
            substring: public_inputs.substring.clone(),
        },
        witness: Some(CircuitWitness {
            plaintext,
            offset: 0,
        }),
    };

    let generator = TraceGenerator::new(config);
    let trace = generator.generate_trace(&params).unwrap();

    let constraints = air.evaluate_constraints(&trace, &public_inputs).unwrap();

    println!("Generated {} constraints", constraints.len());
    assert!(constraints.len() > 0);
}

#[test]
fn test_constraint_polynomial_building() {
    let config = CircuitConfig::default();
    let layout = TraceLayout::default();
    let air = SubstringAIR::new(config.clone(), layout);

    let builder = ConstraintPolynomialBuilder::new(air);

    let plaintext = b"test".to_vec();
    let substring = b"te".to_vec();

    let mut hasher = Sha256::new();
    hasher.update(&plaintext);
    let commitment = hasher.finalize().into();

    let public_inputs = PublicInputs {
        commitment,
        substring,
    };

    let params = CircuitParams {
        config: config.clone(),
        public_inputs: PublicInputs {
            commitment: public_inputs.commitment,
            substring: public_inputs.substring.clone(),
        },
        witness: Some(CircuitWitness {
            plaintext,
            offset: 0,
        }),
    };

    let generator = TraceGenerator::new(config);
    let trace = generator.generate_trace(&params).unwrap();

    let polynomials = builder
        .build_constraint_polynomials(&trace, &public_inputs)
        .unwrap();

    println!("Generated {} constraint polynomials", polynomials.len());
    assert!(polynomials.len() > 0);
}

#[test]
fn test_hello_world_example() {
    let config = CircuitConfig::default();
    let circuit = SubstringCircuit::new(config.clone());

    let plaintext = b"hello world!".to_vec();
    let substring = b"hello".to_vec();

    let mut hasher = Sha256::new();
    hasher.update(&plaintext);
    let commitment = hasher.finalize().into();

    let params = CircuitParams {
        config,
        public_inputs: PublicInputs {
            commitment,
            substring,
        },
        witness: Some(CircuitWitness {
            plaintext,
            offset: 0,
        }),
    };

    let trace = circuit.generate_trace(&params).unwrap();

    let is_valid = circuit.verify_constraints(&trace, &params).unwrap();
    assert!(is_valid);
}

#[test]
fn test_invalid_substring() {
    let config = CircuitConfig::default();
    let circuit = SubstringCircuit::new(config.clone());

    let plaintext = b"hello world!".to_vec();
    let substring = b"xyz".to_vec();

    let mut hasher = Sha256::new();
    hasher.update(&plaintext);
    let commitment = hasher.finalize().into();

    let params = CircuitParams {
        config,
        public_inputs: PublicInputs {
            commitment,
            substring,
        },
        witness: Some(CircuitWitness {
            plaintext,
            offset: 0,
        }),
    };

    let trace = circuit.generate_trace(&params).unwrap();
    let is_valid = circuit.verify_constraints(&trace, &params).unwrap();
    assert!(!is_valid);
}

#[test]
fn test_trace_generation() {
    let config = CircuitConfig::default();
    let generator = TraceGenerator::new(config.clone());

    let plaintext = b"hello world!".to_vec();
    let substring = b"hello".to_vec();

    let mut hasher = Sha256::new();
    hasher.update(&plaintext);
    let commitment = hasher.finalize().into();

    let params = CircuitParams {
        config,
        public_inputs: PublicInputs {
            commitment,
            substring,
        },
        witness: Some(CircuitWitness {
            plaintext,
            offset: 0,
        }),
    };

    let trace = generator.generate_trace(&params).unwrap();

    assert_eq!(trace.len(), 101);
    assert!(trace[0].len() >= 64);

    assert_eq!(trace[96][0].value, b'h' as u64);
    assert_eq!(trace[99][0].value, 1);
    assert_eq!(trace[98][0].value, 1);
}
