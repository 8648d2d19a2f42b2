//! Tests of the hashing helpers and the field arithmetic against the
//! outside crates they rely on.

use sha2::{Digest, Sha256};

use zkp_rs::field::{boolean_cell, Fp, GOLDILOCKS_P};
use zkp_rs::hash::{hash, hash_hex, verify};

#[test]
fn hash_matches_reference_digest() {
    let data = b"hello world!";
    let digest = hash(data);
    let expected: [u8; 32] = Sha256::digest(data).into();
    assert_eq!(digest, expected);
    assert_ne!(&digest[..], &data[..]);
}

#[test]
fn hash_hex_matches_reference_encoding() {
    let data = b"hello world!";
    let expected = hex::encode(Sha256::digest(data));
    assert_eq!(hash_hex(data), expected);
    assert_eq!(hash_hex(data).len(), 64);
}

#[test]
fn verify_accepts_matching_digest_only() {
    let data = b"some bytes";
    let digest = hash(data);
    assert!(verify(data, &digest));

    let mut wrong = digest;
    wrong[0] ^= 1;
    assert!(!verify(data, &wrong));
    assert!(!verify(b"other bytes", &digest));
}

#[test]
fn field_addition_wraps_at_the_order() {
    let a = Fp {
        value: GOLDILOCKS_P - 1,
    };
    let b = Fp { value: 1 };
    assert_eq!(a.add(b).value, 0);
    assert_eq!(Fp { value: 5 }.add(Fp { value: 7 }).value, 12);
}

#[test]
fn field_subtraction_wraps_below_zero() {
    let a = Fp { value: 3 };
    let b = Fp { value: 5 };
    assert_eq!(a.sub(b).value, GOLDILOCKS_P - 2);
    assert_eq!(b.sub(a).value, 2);
}

#[test]
fn field_multiplication_reduces_modulo_the_order() {
    let a = Fp { value: 1 << 32 };
    // 2^64 mod (2^64 - 2^32 + 1) is 2^32 - 1.
    assert_eq!(a.mul(a).value, (1u64 << 32) - 1);
    assert_eq!(Fp { value: 6 }.mul(Fp { value: 7 }).value, 42);
}

#[test]
fn field_inverse_inverts() {
    let two = Fp { value: 2 };
    assert_eq!(two.inverse().mul(two).value, 1);
    assert_ne!(two.inverse().value, 2);
    assert_eq!(Fp { value: 1 }.inverse().value, 1);
    let x = Fp { value: 123_456_789 };
    assert_eq!(x.inverse().mul(x).value, 1);
}

#[test]
fn boolean_cell_accepts_exactly_zero_and_one() {
    assert!(boolean_cell(Fp { value: 0 }));
    assert!(boolean_cell(Fp { value: 1 }));
    assert!(!boolean_cell(Fp { value: 2 }));
    assert!(!boolean_cell(Fp {
        value: GOLDILOCKS_P - 1
    }));
}
