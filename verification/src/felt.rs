//! Field elements in canonical form.
//!
//! The constraint system works over a prime field whose order is large enough
//! to represent every 32-bit machine value distinctly; this module fixes that
//! field and provides the canonical embeddings and arithmetic the word codec
//! relies on.

use vstd::prelude::*;

verus! {

/// The field order: the prime 2^64 - 2^32 + 1. Every 32-bit value embeds
/// injectively, which is the precondition the word codec's reduction needs.
pub const FIELD_ORDER: u64 = 0xFFFF_FFFF_0000_0001;

/// Field addition on canonical representatives.
pub open spec fn spec_field_add(a: int, b: int) -> int {
    (a + b) % (FIELD_ORDER as int)
}

/// Field multiplication on canonical representatives.
pub open spec fn spec_field_mul(a: int, b: int) -> int {
    (a * b) % (FIELD_ORDER as int)
}

/// Modular addition of canonical representatives.
pub fn add_mod(a: u64, b: u64) -> (r: u64)
    requires
        a < FIELD_ORDER,
        b < FIELD_ORDER,
    ensures
        r as int == spec_field_add(a as int, b as int),
        r < FIELD_ORDER,
{
    let sum: u128 = a as u128 + b as u128;
    (sum % (FIELD_ORDER as u128)) as u64
}

/// Modular multiplication of canonical representatives.
pub fn mul_mod(a: u64, b: u64) -> (r: u64)
    requires
        a < FIELD_ORDER,
        b < FIELD_ORDER,
    ensures
        r as int == spec_field_mul(a as int, b as int),
        r < FIELD_ORDER,
{
    proof {
        assert(a as int * b as int <= u128::MAX) by (nonlinear_arith)
            requires
                a < FIELD_ORDER,
                b < FIELD_ORDER,
        ;
    }
    let product: u128 = a as u128 * b as u128;
    (product % (FIELD_ORDER as u128)) as u64
}

/// A field element, stored as its canonical representative in
/// `[0, FIELD_ORDER)`.
#[derive(Clone, Copy, Debug, PartialEq, Eq, Hash)]
pub struct Felt {
    value: u64,
}

impl View for Felt {
    type V = int;

    closed spec fn view(&self) -> int {
        self.value as int
    }
}

impl Felt {
    #[verifier::type_invariant]
    spec fn inv(self) -> bool {
        self.value < FIELD_ORDER
    }

    /// The canonical embedding of a byte.
    pub fn from_canonical_u8(value: u8) -> (r: Felt)
        ensures
            r@ == value as int,
    {
        Felt { value: value as u64 }
    }

    /// The canonical embedding of a 32-bit value.
    pub fn from_canonical_u32(value: u32) -> (r: Felt)
        ensures
            r@ == value as int,
    {
        Felt { value: value as u64 }
    }

    /// The additive identity.
    pub fn zero() -> (r: Felt)
        ensures
            r@ == 0,
    {
        Felt { value: 0 }
    }

    /// The canonical representative of this element.
    pub fn as_canonical_u64(&self) -> (r: u64)
        ensures
            r as int == self@,
            r < FIELD_ORDER,
    {
        proof {
            use_type_invariant(self);
        }
        self.value
    }

    /// Field addition.
    pub fn add(self, other: Felt) -> (r: Felt)
        ensures
            r@ == spec_field_add(self@, other@),
    {
        proof {
            use_type_invariant(self);
            use_type_invariant(other);
        }
        Felt { value: add_mod(self.value, other.value) }
    }

    /// Field multiplication.
    pub fn mul(self, other: Felt) -> (r: Felt)
        ensures
            r@ == spec_field_mul(self@, other@),
    {
        proof {
            use_type_invariant(self);
            use_type_invariant(other);
        }
        Felt { value: mul_mod(self.value, other.value) }
    }
}

} // verus!
