//! The reasons for which an operation on a pool is refused.

use vstd::prelude::*;

verus! {

/// Why an operation was refused. Every refusal is final for the call that
/// met it, and leaves the pool as it was.
#[derive(Clone, Copy, Debug, PartialEq, Eq, Structural)]
pub enum AamErrorCode {
    /// The pool has already been initialized.
    AlreadyInitialized,
    /// The first deposit does not cover the minimum liquidity.
    InsufficientInitialLiquidity,
    /// An amount that must be positive is zero.
    ZeroAmount,
    /// The deposit or the reserves are too small for the operation.
    InsufficientLiquidity,
    /// An offered amount is below what the pool's ratio charges.
    LiquidityRatioMismatch,
    /// A number does not fit its integer type.
    MathOverflow,
    /// A divisor is zero.
    ZeroDivision,
    /// An asset is not the one the pool expects.
    InvalidMint,
    /// A vault is not the one the pool expects.
    InvalidVault,
    /// The output of a swap is below the minimum that the caller set.
    MinimumOutputBalanceExceed,
    /// A swap names the same asset on both sides.
    SameTokenSwap,
}

impl AamErrorCode {
    /// The sentence that describes the refusal.
    pub open spec fn message_text(self) -> Seq<char> {
        match self {
            AamErrorCode::AlreadyInitialized => "The pool has already been initialized."@,
            AamErrorCode::InsufficientInitialLiquidity => "Initial liquidity must be sufficient to cover MINIMUM_LIQUIDITY."@,
            AamErrorCode::ZeroAmount => "Amounts provided for liquidity are zero."@,
            AamErrorCode::InsufficientLiquidity => "Insufficient liquidity provided for existing pool ratio."@,
            AamErrorCode::LiquidityRatioMismatch => "Liquidity amounts do not match current pool ratio."@,
            AamErrorCode::MathOverflow => "Integer overflow or underflow."@,
            AamErrorCode::ZeroDivision => "Division by zero."@,
            AamErrorCode::InvalidMint => "Invalid token mint account."@,
            AamErrorCode::InvalidVault => "Invalid token vault account."@,
            AamErrorCode::MinimumOutputBalanceExceed => "Minimum output balance exceed."@,
            AamErrorCode::SameTokenSwap => "Same token swap."@,
        }
    }

    /// Returns the sentence that describes the refusal.
    pub fn message(&self) -> (text: &'static str)
        ensures
            text@ == self.message_text(),
    {
        match self {
            AamErrorCode::AlreadyInitialized => "The pool has already been initialized.",
            AamErrorCode::InsufficientInitialLiquidity => "Initial liquidity must be sufficient to cover MINIMUM_LIQUIDITY.",
            AamErrorCode::ZeroAmount => "Amounts provided for liquidity are zero.",
            AamErrorCode::InsufficientLiquidity => "Insufficient liquidity provided for existing pool ratio.",
            AamErrorCode::LiquidityRatioMismatch => "Liquidity amounts do not match current pool ratio.",
            AamErrorCode::MathOverflow => "Integer overflow or underflow.",
            AamErrorCode::ZeroDivision => "Division by zero.",
            AamErrorCode::InvalidMint => "Invalid token mint account.",
            AamErrorCode::InvalidVault => "Invalid token vault account.",
            AamErrorCode::MinimumOutputBalanceExceed => "Minimum output balance exceed.",
            AamErrorCode::SameTokenSwap => "Same token swap.",
        }
    }
}

} // verus!
