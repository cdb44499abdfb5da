//! Errors, events, and configuration of the exchange.

use vstd::prelude::*;

verus! {

/// Every way an operation can be refused. All are recoverable,
/// caller-correctable conditions; none is silently swallowed.
#[derive(Clone, Copy, PartialEq, Eq, Debug)]
pub enum Error {
    /// The two assets of a pair must be distinct.
    IdenticalAssets,
    /// The caller's balance of an asset is below what the operation moves.
    InsufficientBalance,
    /// A deposited amount must be nonzero.
    ZeroAmount,
    /// A pool for this canonical pair is already registered.
    PoolAlreadyExists,
    /// No pool is registered for this canonical pair.
    PoolDoesNotExist,
    /// A proportional deposit cannot be priced against a drained reserve.
    EmptyPool,
    /// The high-side withdrawal fell below the caller's stated minimum.
    NotEnoughAssetsA,
    /// The low-side withdrawal fell below the caller's stated minimum.
    NotEnoughAssetsB,
    /// The caller holds fewer liquidity-share tokens than required.
    NotEnoughLiquidityTokens,
    /// The requested exact output is not below the pool's reserve of it.
    RequestedExceedsPoolBalance,
    /// A swap missed the caller's minimum output or maximum input.
    SlippageExceeded,
    /// A checked multiplication or addition exceeded the integer width.
    ArithmeticOverflow,
    /// A checked division or subtraction could not be performed.
    ArithmeticUnderflow,
}

/// Notable state changes, recorded in order of occurrence.
#[derive(Clone, Copy, PartialEq, Eq, Debug)]
pub enum Event {
    /// A liquidity pool has been created.
    PoolCreated { asset_a: u64, asset_b: u64, liquidity_id: u64 },
    /// Liquidity was deposited into an existing pool.
    LiquidityAdded { asset_a: u64, asset_b: u64, liquidity_id: u64 },
    /// Liquidity was withdrawn from a pool.
    LiquidityRemoved { asset_a: u64, asset_b: u64, liquidity_id: u64, amount_liq: u128 },
    /// A pool was fully drained and released.
    PoolRemoved { asset_a: u64, asset_b: u64, liquidity_id: u64 },
}

/// Which ledger a balance belongs to: the native currency, or a
/// fungible-asset class.
#[derive(Clone, Copy, PartialEq, Eq, Debug)]
pub enum BalanceType {
    NativeBalance,
    AssetBalance(u64),
}

/// Fixed parameters of the exchange.
#[derive(Clone, Copy, PartialEq, Eq, Debug)]
pub struct Config {
    /// Swap fee, in whole percent; must lie between 0 and 100.
    pub fee_percentage: u32,
    /// Native currency bound to a pool's account while the pool exists.
    pub pool_deposit: u128,
}

/// Result of a caller-facing operation.
pub type DispatchResult = Result<(), Error>;

} // verus!
