use vstd::prelude::*;

verus! {

/// The ways an operation of this library can fail.
#[derive(Debug, Clone, Copy, PartialEq, Eq, Structural)]
pub enum MoneyError {
    /// The input cannot become an amount.
    InvalidAmount,
    /// The input cannot become a decimal.
    InvalidDecimal,
    /// A division whose divisor is zero.
    DivisionByZero,
    /// An operand of the wrong kind.
    TypeMismatch,
    /// A reducer was handed nothing.
    InsufficientArguments,
    /// A serialised record lacks a field, or holds a malformed one.
    InvalidStructure,
    /// A value offered for validation is not one of the accepted forms.
    ValidationError,
}

} // verus!
