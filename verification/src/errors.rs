//! The ways in which an operation of the market maker fails.

use vstd::prelude::*;

verus! {

/// Why an operation was refused. Every failure ends the operation it occurs
/// in: nothing is applied in part.
#[derive(Clone, Copy, Debug, PartialEq, Eq, Structural)]
pub enum TutorialError {
    /// The fee of a market is 100% or more.
    InvalidFee,
    /// The two assets of a pool are the same.
    InvalidMint,
    /// The first deposit mints less than the liquidity that is withheld.
    DepositTooSmall,
    /// A swap pays out less than the trader asked for at least.
    OutputTooSmall,
    /// The product of the reserves fell across a swap.
    InvariantViolated,
    /// A fixed-point value does not fit its representation.
    ArithmeticOverflow,
    /// A fixed-point division by zero.
    DivisionByZero,
}

impl TutorialError {
    /// The text that goes with each failure.
    pub open spec fn message_spec(self) -> Seq<char> {
        match self {
            TutorialError::InvalidFee => "Invalid fee value"@,
            TutorialError::InvalidMint => "Invalid mint for the pool"@,
            TutorialError::DepositTooSmall => "Depositing too little liquidity"@,
            TutorialError::OutputTooSmall => "Output is below the minimum expected"@,
            TutorialError::InvariantViolated => "Invariant does not hold"@,
            TutorialError::ArithmeticOverflow => "Arithmetic overflow"@,
            TutorialError::DivisionByZero => "Division by zero"@,
        }
    }

    /// A short description of the failure, for logs and for users.
    pub fn message(&self) -> (text: &'static str)
        ensures
            text@ == self.message_spec(),
    {
        match self {
            TutorialError::InvalidFee => "Invalid fee value",
            TutorialError::InvalidMint => "Invalid mint for the pool",
            TutorialError::DepositTooSmall => "Depositing too little liquidity",
            TutorialError::OutputTooSmall => "Output is below the minimum expected",
            TutorialError::InvariantViolated => "Invariant does not hold",
            TutorialError::ArithmeticOverflow => "Arithmetic overflow",
            TutorialError::DivisionByZero => "Division by zero",
        }
    }
}

} // verus!
