//! The two policies that decide whether a NaN operand or an overflowing result
//! fails the operation or turns into a NaN result.

use vstd::prelude::*;

verus! {

/// Why a checked operation failed.
#[derive(Debug, Clone, Copy, PartialEq, Eq, Structural)]
pub enum IntegerError {
    /// An operand was NaN.
    NaNOperand,
    /// A result needs more than 257 bits.
    IntegerOverflow,
}

/// A policy chosen at compile time by every operation.
pub trait OperationBehavior {
    /// True for the policy that substitutes NaN rather than failing.
    spec fn quiet() -> bool;

    /// Called when an operand is NaN: `Ok` lets the caller return NaN.
    fn on_nan_parameter() -> (r: Result<(), IntegerError>)
        ensures
            r == (if Self::quiet() { Ok::<(), IntegerError>(()) } else { Err(IntegerError::NaNOperand) }),
    ;

    /// Called when a result does not fit: `Ok` lets the caller return NaN.
    fn on_integer_overflow() -> (r: Result<(), IntegerError>)
        ensures
            r == (if Self::quiet() { Ok::<(), IntegerError>(()) } else { Err(IntegerError::IntegerOverflow) }),
    ;
}

/// Fails on a NaN operand and on overflow.
#[derive(Debug, Clone, Copy)]
pub struct Checked;

/// Yields NaN on a NaN operand and on overflow.
#[derive(Debug, Clone, Copy)]
pub struct Quiet;

impl OperationBehavior for Checked {
    open spec fn quiet() -> bool {
        false
    }

    fn on_nan_parameter() -> (r: Result<(), IntegerError>) {
        Err(IntegerError::NaNOperand)
    }

    fn on_integer_overflow() -> (r: Result<(), IntegerError>) {
        Err(IntegerError::IntegerOverflow)
    }
}

impl OperationBehavior for Quiet {
    open spec fn quiet() -> bool {
        true
    }

    fn on_nan_parameter() -> (r: Result<(), IntegerError>) {
        Ok(())
    }

    fn on_integer_overflow() -> (r: Result<(), IntegerError>) {
        Ok(())
    }
}

} // verus!
