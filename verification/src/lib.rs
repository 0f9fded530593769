//! Constraint-encoding primitives for a STARK proving machine: the canonical
//! representation of 32-bit machine words as byte limbs over a prime field,
//! a small expression algebra for stating constraints over those limbs, and
//! the composition of constraint chips into one provable machine with a
//! bounded public-value budget.

pub mod expr;
pub mod felt;
pub mod stark;
pub mod word;
