//! A minimal interface through which a host environment can drive an
//! exchange and its ledger. It is meant for users of this crate to
//! implement over their own runner — its operations are static, taking the
//! state implicitly — so the crate itself leaves it unimplemented; the
//! engine's own verified operations act on an explicit
//! [`crate::pallet::Pallet`] instead.

use vstd::prelude::*;

use crate::types::DispatchResult;

verus! {

pub trait DexInterface {
    /// The type which can be used to identify accounts.
    type AccountId;

    /// The type used to identify various fungible assets.
    type AssetId;

    /// The type used to represent the balance of a fungible asset.
    type AssetBalance;

    /// A helper to set up an account so it can hold any number of assets.
    fn setup_account(who: Self::AccountId) -> DispatchResult;

    /// Do whatever is needed to give a user some amount of an asset.
    fn mint_asset(
        who: Self::AccountId,
        token_id: Self::AssetId,
        amount: Self::AssetBalance,
    ) -> DispatchResult;

    /// Get a user's asset balance.
    fn asset_balance(who: Self::AccountId, token_id: Self::AssetId) -> Self::AssetBalance;

    /// The number of percentage points taken as the swap fee.
    fn swap_fee() -> u16;

    /// Removes liquidity from a pool on behalf of a user: `token_amount`
    /// liquidity-share tokens are burned in exchange for the underlying
    /// assets.
    fn remove_liquidity_(
        who: Self::AccountId,
        asset_a: Self::AssetId,
        asset_b: Self::AssetId,
        token_amount: Self::AssetBalance,
    ) -> DispatchResult;

    /// Swaps an exact amount of `asset_in` for a minimum amount of
    /// `asset_out` on behalf of `who`.
    fn swap_exact_in_for_out(
        who: Self::AccountId,
        asset_in: Self::AssetId,
        asset_out: Self::AssetId,
        exact_in: Self::AssetBalance,
        min_out: Self::AssetBalance,
    ) -> DispatchResult;

    /// Swaps at most `max_in` of `asset_in` for an exact amount of
    /// `asset_out` on behalf of `origin`.
    fn swap_in_for_exact_out(
        origin: Self::AccountId,
        asset_in: Self::AssetId,
        asset_out: Self::AssetId,
        max_in: Self::AssetBalance,
        exact_out: Self::AssetBalance,
    ) -> DispatchResult;
}

} // verus!
