use vstd::prelude::*;

verus! {

/// Every way a public operation of the engine can fail. Each operation
/// reports the first failing check and leaves the store untouched.
#[derive(Clone, Copy, PartialEq, Eq, Structural, Debug)]
pub enum Error {
    /// No active pool exists for the requested pair.
    ExchangeNotExists,
    /// An active pool already exists for the requested pair.
    ExchangeAlreadyExists,
    /// The two assets of the requested pair are the same asset.
    InvalidExchange,
    /// A pool slot about to be launched still carries a nonzero invariant.
    InvariantNotNull,
    /// A pool slot about to be launched still carries outstanding shares.
    TotalSharesNotNull,
    /// The first deposit of a pool launch is zero.
    LowFirstAssetAmount,
    /// The second deposit of a pool launch is zero.
    LowSecondAssetAmount,
    /// The first-asset amount paid out falls below the caller's bound.
    FirstAssetAmountBelowExpectation,
    /// The second-asset amount paid out falls below the caller's bound.
    SecondAssetAmountBelowExpectation,
    /// The pool cannot cover the requested output amount.
    InsufficientPool,
    /// A share amount of zero was requested.
    InvalidShares,
    /// The caller owns shares, but fewer than it asked to burn.
    InsufficientShares,
    /// The caller owns no shares of the pool.
    DoesNotOwnShare,
    /// The caller's native-currency balance cannot cover the debit.
    InsufficientKsmBalance,
    /// The caller's bridged-asset balance cannot cover the debit.
    InsufficientOtherAssetBalance,
    /// A bridged-asset id is not registered.
    AssetIdDoesNotExist,
    /// A checked addition or multiplication would exceed the balance type.
    OverflowOccured,
    /// A checked subtraction would fall below zero.
    UnderflowOccured,
    /// A checked arithmetic step would leave the balance type's range.
    UnderflowOrOverflowOccured,
}

} // verus!
