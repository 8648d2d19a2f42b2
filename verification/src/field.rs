//! Goldilocks field elements, kept as canonical `u64` representatives.
//!
//! The trace and the constraint system work over the Goldilocks prime field.
//! A cell is stored as its canonical representative (a `u64` below the field
//! order), and the arithmetic itself is done by the `p3_goldilocks` crate
//! through the trusted wrappers below, whose contracts state plain modular
//! arithmetic on the representatives.

use vstd::prelude::*;
use vstd::arithmetic::div_mod::{lemma_mul_mod_noop_general, lemma_small_mod};

use p3_field::Field;
use p3_field::PrimeField64;
use p3_goldilocks::Goldilocks;

verus! {

/// Order of the Goldilocks prime field: 2^64 - 2^32 + 1.
pub const GOLDILOCKS_P: u64 = 0xFFFF_FFFF_0000_0001;

/// One field element, as its canonical representative.
#[derive(Clone, Copy, Debug, PartialEq, Eq, Structural)]
pub struct Fp {
    pub value: u64,
}

/// A well-formed element is a canonical representative.
pub open spec fn fp_wf(x: Fp) -> bool {
    x.value < GOLDILOCKS_P
}

/// Field addition on canonical representatives.
pub open spec fn fadd(a: int, b: int) -> int {
    (a + b) % (GOLDILOCKS_P as int)
}

/// Field subtraction on canonical representatives.
pub open spec fn fsub(a: int, b: int) -> int {
    (a - b) % (GOLDILOCKS_P as int)
}

/// Field multiplication on canonical representatives.
pub open spec fn fmul(a: int, b: int) -> int {
    (a * b) % (GOLDILOCKS_P as int)
}

/// Relies on `p3_goldilocks::Goldilocks`: `Add` computes addition modulo
/// 2^64 - 2^32 + 1, and `as_canonical_u64` returns the canonical
/// representative of the result.
#[verifier::external_body]
fn gl_add(a: u64, b: u64) -> (r: u64)
    requires
        a < GOLDILOCKS_P,
        b < GOLDILOCKS_P,
    ensures
        r as int == fadd(a as int, b as int),
{
    (Goldilocks::new(a) + Goldilocks::new(b)).as_canonical_u64()
}

/// Relies on `p3_goldilocks::Goldilocks`: `Sub` computes subtraction modulo
/// 2^64 - 2^32 + 1, and `as_canonical_u64` returns the canonical
/// representative of the result.
#[verifier::external_body]
fn gl_sub(a: u64, b: u64) -> (r: u64)
    requires
        a < GOLDILOCKS_P,
        b < GOLDILOCKS_P,
    ensures
        r as int == fsub(a as int, b as int),
{
    (Goldilocks::new(a) - Goldilocks::new(b)).as_canonical_u64()
}

/// Relies on `p3_goldilocks::Goldilocks`: `Mul` computes multiplication modulo
/// 2^64 - 2^32 + 1, and `as_canonical_u64` returns the canonical
/// representative of the result.
#[verifier::external_body]
fn gl_mul(a: u64, b: u64) -> (r: u64)
    requires
        a < GOLDILOCKS_P,
        b < GOLDILOCKS_P,
    ensures
        r as int == fmul(a as int, b as int),
{
    (Goldilocks::new(a) * Goldilocks::new(b)).as_canonical_u64()
}

/// Relies on `p3_field::Field::try_inverse` for `Goldilocks`: every nonzero
/// field element has a multiplicative inverse, and zero has none.
#[verifier::external_body]
fn gl_inverse(a: u64) -> (r: u64)
    requires
        0 < a < GOLDILOCKS_P,
    ensures
        r < GOLDILOCKS_P,
        fmul(a as int, r as int) == 1,
{
    Goldilocks::new(a).try_inverse().unwrap().as_canonical_u64()
}

impl Fp {
    /// The additive identity.
    pub fn zero() -> (r: Fp)
        ensures
            r.value == 0,
            fp_wf(r),
    {
        Fp { value: 0 }
    }

    /// The multiplicative identity.
    pub fn one() -> (r: Fp)
        ensures
            r.value == 1,
            fp_wf(r),
    {
        Fp { value: 1 }
    }

    /// Canonical embedding of a byte; bytes are below the field order.
    pub fn from_byte(b: u8) -> (r: Fp)
        ensures
            r.value == b,
            fp_wf(r),
    {
        Fp { value: b as u64 }
    }

    /// Canonical embedding of a length, reduced into the field.
    pub fn from_len(n: usize) -> (r: Fp)
        ensures
            r.value as int == (n as int) % (GOLDILOCKS_P as int),
            fp_wf(r),
    {
        Fp { value: (n as u64) % GOLDILOCKS_P }
    }

    /// Field addition.
    pub fn add(self, rhs: Fp) -> (r: Fp)
        requires
            fp_wf(self),
            fp_wf(rhs),
        ensures
            fp_wf(r),
            r.value as int == fadd(self.value as int, rhs.value as int),
    {
        let v = gl_add(self.value, rhs.value);
        proof {
            vstd::arithmetic::div_mod::lemma_mod_bound(
                self.value as int + rhs.value as int,
                GOLDILOCKS_P as int,
            );
        }
        Fp { value: v }
    }

    /// Field subtraction.
    pub fn sub(self, rhs: Fp) -> (r: Fp)
        requires
            fp_wf(self),
            fp_wf(rhs),
        ensures
            fp_wf(r),
            r.value as int == fsub(self.value as int, rhs.value as int),
    {
        let v = gl_sub(self.value, rhs.value);
        proof {
            vstd::arithmetic::div_mod::lemma_mod_bound(
                self.value as int - rhs.value as int,
                GOLDILOCKS_P as int,
            );
        }
        Fp { value: v }
    }

    /// The multiplicative inverse of a nonzero element.
    pub fn inverse(self) -> (r: Fp)
        requires
            fp_wf(self),
            self.value != 0,
        ensures
            fp_wf(r),
            fmul(self.value as int, r.value as int) == 1,
    {
        Fp { value: gl_inverse(self.value) }
    }

    /// Field multiplication.
    pub fn mul(self, rhs: Fp) -> (r: Fp)
        requires
            fp_wf(self),
            fp_wf(rhs),
        ensures
            fp_wf(r),
            r.value as int == fmul(self.value as int, rhs.value as int),
    {
        let v = gl_mul(self.value, rhs.value);
        proof {
            vstd::arithmetic::div_mod::lemma_mod_bound(
                self.value as int * rhs.value as int,
                GOLDILOCKS_P as int,
            );
        }
        Fp { value: v }
    }
}

/// A cell whose boolean constraint `x * (x - 1)` vanishes holds 0 or 1 and
/// nothing else.  The certificate inverts both factors through the field:
/// were the cell any other value, both factors would be nonzero, their
/// inverses would make the vanishing product equal to one, and the field
/// order is larger than one.
pub fn boolean_cell(x: Fp) -> (r: bool)
    requires
        fp_wf(x),
    ensures
        r == (fmul(x.value as int, fsub(x.value as int, 1)) == 0),
        r ==> x.value == 0 || x.value == 1,
{
    let xm1 = x.sub(Fp::one());
    let t = x.mul(xm1);
    proof {
        lemma_mul_mod_noop_general(
            x.value as int,
            (x.value as int - 1) % (GOLDILOCKS_P as int),
            GOLDILOCKS_P as int,
        );
    }
    if t.value != 0 {
        return false;
    }
    if x.value == 0 || x.value == 1 {
        return true;
    }
    let ix = x.inverse();
    let ixm1 = xm1.inverse();
    proof {
        // No product of two invertible elements vanishes in a field: the
        // inverses turn the vanishing product into one, yet one differs
        // from zero below the field order.
        let p = GOLDILOCKS_P as int;
        let a = x.value as int;
        let b = xm1.value as int;
        let ia = ix.value as int;
        let ib = ixm1.value as int;
        let m = (a * b) * (ia * ib);
        lemma_mul_mod_noop_general(a * b, ia * ib, p);
        assert((((a * b) % p) * ((ia * ib) % p)) % p == m % p);
        assert(((a * b) % p) == 0);
        lemma_small_mod(0nat, p as nat);
        assert((0int * ((ia * ib) % p)) == 0) by (nonlinear_arith);
        assert(m % p == 0);
        let m2 = (a * ia) * (b * ib);
        assert((a * b) * (ia * ib) == (a * ia) * (b * ib)) by (nonlinear_arith);
        assert(m == m2);
        lemma_mul_mod_noop_general(a * ia, b * ib, p);
        assert((((a * ia) % p) * ((b * ib) % p)) % p == m2 % p);
        lemma_small_mod(1nat, p as nat);
        assert(m2 % p == 1);
        assert(false);
    }
    true
}

} // verus!
