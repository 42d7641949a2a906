//! Verification arithmetic for BN254 KZG proof aggregation, in two
//! evaluation contexts: natively, on field elements and curve points, and in
//! a circuit, on cells assigned through halo2-base and halo2-ecc. Both run
//! the same KZG accumulation fold, and the contracts of the circuit side state
//! that its witnessed values are those the native side computes. The folded
//! accumulator is exposed as limbs of its four coordinates.
use vstd::prelude::*;

pub mod accumulation;
pub mod aggregation;
pub mod curve;
pub mod field;
pub mod halo2_lib;
pub mod limbs;
pub mod native;
pub mod shim;

verus! {

/// What can go wrong while verifying.
#[derive(Debug, PartialEq, Eq)]
pub enum Error {
    /// An equality check between loaded values failed; carries the check's
    /// annotation.
    AssertionFailure(String),
    /// The limb layout of a configuration differs from the fixed one.
    ConfigurationMismatch,
}

} // verus!
