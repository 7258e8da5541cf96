//! Checked arithmetic on unsigned quantities: every operation either yields the
//! mathematical result or reports why it could not.

use safe_arith::SafeArith;
use vstd::prelude::*;

verus! {

/// Why a checked arithmetic operation failed.
#[derive(Debug, Clone, Copy, PartialEq, Eq, Structural)]
pub enum ArithError {
    Overflow,
    DivisionByZero,
}

/// The sum of two `u64`, or `Overflow` when it does not fit in 64 bits.
pub open spec fn checked_add(a: u64, b: u64) -> Result<u64, ArithError> {
    if a + b <= u64::MAX {
        Ok((a + b) as u64)
    } else {
        Err(ArithError::Overflow)
    }
}

/// The difference of two `u64`, or `Overflow` when it would be negative.
pub open spec fn checked_sub(a: u64, b: u64) -> Result<u64, ArithError> {
    if b <= a {
        Ok((a - b) as u64)
    } else {
        Err(ArithError::Overflow)
    }
}

/// The remainder of a division of two `u64`, or `DivisionByZero`.
pub open spec fn checked_rem(a: u64, b: u64) -> Result<u64, ArithError> {
    if b != 0 {
        Ok((a % b) as u64)
    } else {
        Err(ArithError::DivisionByZero)
    }
}

/// The sum of two `usize`, or `Overflow` when it does not fit.
pub open spec fn checked_add_usize(a: usize, b: usize) -> Result<usize, ArithError> {
    if a + b <= usize::MAX {
        Ok((a + b) as usize)
    } else {
        Err(ArithError::Overflow)
    }
}

/// `SafeArith::safe_add` of the `safe_arith` crate on `u64`: the sum when it
/// fits in 64 bits, and `Overflow` otherwise.
#[verifier::external_body]
pub(crate) fn safe_add(a: u64, b: u64) -> (r: Result<u64, ArithError>)
    ensures
        r == checked_add(a, b),
{
    match a.safe_add(b) {
        Ok(v) => Ok(v),
        Err(safe_arith::ArithError::Overflow) => Err(ArithError::Overflow),
        Err(safe_arith::ArithError::DivisionByZero) => Err(ArithError::DivisionByZero),
    }
}

/// `SafeArith::safe_sub` of the `safe_arith` crate on `u64`: the difference
/// when it is not negative, and `Overflow` otherwise.
#[verifier::external_body]
pub(crate) fn safe_sub(a: u64, b: u64) -> (r: Result<u64, ArithError>)
    ensures
        r == checked_sub(a, b),
{
    match a.safe_sub(b) {
        Ok(v) => Ok(v),
        Err(safe_arith::ArithError::Overflow) => Err(ArithError::Overflow),
        Err(safe_arith::ArithError::DivisionByZero) => Err(ArithError::DivisionByZero),
    }
}

/// `SafeArith::safe_rem` of the `safe_arith` crate on `u64`: the remainder
/// when the divisor is not zero, and `DivisionByZero` otherwise.
#[verifier::external_body]
pub(crate) fn safe_rem(a: u64, b: u64) -> (r: Result<u64, ArithError>)
    ensures
        r == checked_rem(a, b),
{
    match a.safe_rem(b) {
        Ok(v) => Ok(v),
        Err(safe_arith::ArithError::Overflow) => Err(ArithError::Overflow),
        Err(safe_arith::ArithError::DivisionByZero) => Err(ArithError::DivisionByZero),
    }
}

/// `SafeArith::safe_add` of the `safe_arith` crate on `usize`: the sum when it
/// fits, and `Overflow` otherwise.
#[verifier::external_body]
pub(crate) fn safe_add_usize(a: usize, b: usize) -> (r: Result<usize, ArithError>)
    ensures
        r == checked_add_usize(a, b),
{
    match a.safe_add(b) {
        Ok(v) => Ok(v),
        Err(safe_arith::ArithError::Overflow) => Err(ArithError::Overflow),
        Err(safe_arith::ArithError::DivisionByZero) => Err(ArithError::DivisionByZero),
    }
}

} // verus!
