use vstd::prelude::*;

verus! {

/// Failure conditions surfaced by the quoting engine and the pool operations.
#[derive(Clone, Copy, Debug, PartialEq, Eq, Structural)]
pub enum ErrorCodes {
    /// The amount offered for a quote, deposit, or swap is zero.
    InsufficientAmountToDeposit,
    /// A quote was requested against a pool with an empty reserve.
    InsufficientLiquidity,
    /// The planned asset-B contribution fell below the caller's minimum.
    InsufficientTokenBAmount,
    /// The planned asset-A contribution fell below the caller's minimum.
    InsufficientTokenAAmount,
    /// The deposit would mint zero claim tokens: dust is rejected rather
    /// than silently discarded.
    MintAmountTooSmall,
    /// The withdrawer does not hold the claim tokens being redeemed.
    InsufficientClaimBalance,
    /// The withdrawal would return zero of both assets (dust withdrawal).
    ZeroReturnAmount,
    /// The swap output fell below the caller's minimum output amount.
    SlippageExceeded,
    /// The global configuration was already initialized.
    AlreadyInitialized,
    /// A ledger mutation would break the pool's funding invariant.
    InternalInvariantViolation,
}

} // verus!
