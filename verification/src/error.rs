//! The ways in which a call on the exchange can fail.

use vstd::prelude::*;

verus! {

/// Why a call was refused. Every failure is final for the call that met it:
/// the state it was made on stays exactly as it was.
#[derive(Clone, Copy, Debug, PartialEq, Eq, Structural)]
pub enum Error {
    /// The deadline lies before the current time.
    Expired,
    /// The amount of the first token falls below the caller's minimum.
    InsufficientAAmount,
    /// The amount of the second token falls below the caller's minimum.
    InsufficientBAmount,
    /// The output falls below the caller's minimum, or none was asked for,
    /// or the pool cannot pay it out.
    InsufficientOutputAmount,
    /// The input needed exceeds the caller's maximum.
    ExcessiveInputAmount,
    /// A quote was asked for on an amount of zero.
    InsufficientAmount,
    /// A trade was asked for on an input of zero.
    InsufficientInputAmount,
    /// A reserve is empty, or too small for what is asked of it.
    InsufficientLiquidity,
    /// A deposit would mint no share.
    InsufficientLiquidityMinted,
    /// A redemption would pay out nothing of one of the tokens.
    InsufficientLiquidityBurned,
    /// Both tokens of a pair are the same.
    IdenticalAddresses,
    /// A token or an account is the null identity.
    ZeroAddress,
    /// The product of the reserves, net of the fee, would fall.
    K,
    /// The signed authorisation does not hold: wrong signer, out of date,
    /// or a counter that was used before.
    InvalidPermit,
    /// No pool exists for the two tokens.
    PairNotFound,
    /// A swap path names fewer than two tokens.
    InvalidPath,
    /// An account holds less of a token than it is asked to give.
    InsufficientBalance,
    /// A spender was granted less of a token than it is asked to move.
    InsufficientAllowance,
    /// A quantity does not fit in 256 bits, or would fall below zero.
    Overflow,
}

} // verus!
