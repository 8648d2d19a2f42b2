//! SHA-256 digests and their hex rendering.
//!
//! The digest itself comes from the `sha2` crate; everything stated about it
//! goes through the name `sha256_of`, a function of the input bytes alone.

use vstd::prelude::*;

use sha2::Digest;
use sha2::Sha256;

verus! {

/// The SHA-256 digest of a byte sequence.
pub uninterp spec fn sha256_of(data: Seq<u8>) -> [u8; 32];

/// Relies on `sha2::Sha256`: the digest is a function of the input bytes
/// alone, 32 bytes wide.
#[verifier::external_body]
pub fn hash(data: &[u8]) -> (r: [u8; 32])
    ensures
        r == sha256_of(data@),
{
    let mut hasher = Sha256::new();
    hasher.update(data);
    hasher.finalize().into()
}

/// The character for one hex nibble, lower case.
pub open spec fn hex_digit(n: int) -> char {
    if n == 0 { '0' }
    else if n == 1 { '1' }
    else if n == 2 { '2' }
    else if n == 3 { '3' }
    else if n == 4 { '4' }
    else if n == 5 { '5' }
    else if n == 6 { '6' }
    else if n == 7 { '7' }
    else if n == 8 { '8' }
    else if n == 9 { '9' }
    else if n == 10 { 'a' }
    else if n == 11 { 'b' }
    else if n == 12 { 'c' }
    else if n == 13 { 'd' }
    else if n == 14 { 'e' }
    else { 'f' }
}

/// The lowercase hex rendering of a byte sequence: two characters per byte,
/// high nibble first.
pub open spec fn hex_of(b: Seq<u8>) -> Seq<char> {
    Seq::new(b.len() * 2, |i: int|
        if i % 2 == 0 {
            hex_digit(b[i / 2] as int / 16)
        } else {
            hex_digit(b[i / 2] as int % 16)
        }
    )
}

/// Relies on `hex::encode`: two lowercase hex digits per input byte, in
/// input order, high nibble first.
#[verifier::external_body]
fn hex_encode(data: &[u8]) -> (r: String)
    ensures
        r@ == hex_of(data@),
{
    hex::encode(data)
}

/// The lowercase hex rendering of the SHA-256 digest of `data`.
pub fn hash_hex(data: &[u8]) -> (r: String)
    ensures
        r@ == hex_of(sha256_of(data@)@),
{
    let digest = hash(data);
    hex_encode(digest.as_slice())
}

/// Whether `data` hashes to `expected_hash`.
pub fn verify(data: &[u8], expected_hash: &[u8; 32]) -> (r: bool)
    ensures
        r == (sha256_of(data@)@ == expected_hash@),
{
    let digest = hash(data);
    let mut i: usize = 0;
    while i < 32
        invariant
            i <= 32,
            digest == sha256_of(data@),
            forall|j: int| 0 <= j < i ==> digest@[j] == expected_hash@[j],
        decreases 32 - i,
    {
        if digest[i] != expected_hash[i] {
            return false;
        }
        i += 1;
    }
    proof {
        assert(digest@ =~= expected_hash@);
    }
    true
}

} // verus!
