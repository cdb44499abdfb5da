//! Specification-level transition functions: one per caller-facing
//! operation. Each takes the current [`AmmState`] and the operation's
//! arguments and yields the next state together with the operation's result.
//! A failed operation leaves the state exactly as it was; the checks appear
//! in the order the operation performs them, so each error names the first
//! check that refuses the call.

use vstd::prelude::*;

use crate::ids::PALLET_ACCOUNT;
use crate::ids::pool_account_id;
use crate::ids::share_asset_id;
use crate::math::initial_shares;
use crate::math::percent_mul_spec;
use crate::math::spot_price;
use crate::math::swap_in_before_fee;
use crate::math::swap_out_amount;
use crate::state::AmmState;
use crate::state::burn_from;
use crate::state::try_mint;
use crate::state::try_native_mint;
use crate::state::try_native_transfer;
use crate::state::try_transfer;
use crate::types::Error;
use crate::types::Event;

verus! {

/// Orders a pair of distinct assets so that the lexicographically larger
/// canonical byte encoding comes first, permuting the associated amounts
/// identically. On the big-endian encodings of [`crate::ids`] that order
/// is the numeric one, so the comparison is direct (see
/// [`crate::laws::lemma_canonicalize_orders_by_encoding`]).
pub open spec fn canonicalize(asset_a: u64, asset_b: u64, amount_a: u128, amount_b: u128) -> (
    u64,
    u64,
    u128,
    u128,
)
    recommends
        asset_a != asset_b,
{
    if asset_a > asset_b {
        (asset_a, asset_b, amount_a, amount_b)
    } else {
        (asset_b, asset_a, amount_b, amount_a)
    }
}

/// What `order_asset_ids` returns: the canonical ordering, or a refusal of
/// an identical pair.
pub open spec fn order_spec(asset_a: u64, asset_b: u64, amount_a: u128, amount_b: u128) -> Result<
    (u64, u64, u128, u128),
    Error,
> {
    if asset_a == asset_b {
        Err(Error::IdenticalAssets)
    } else {
        Ok(canonicalize(asset_a, asset_b, amount_a, amount_b))
    }
}

/// The caller must hold both amounts, and both must be nonzero.
pub open spec fn check_user_balances_spec(
    s: AmmState,
    who: u64,
    asset_high: u64,
    asset_low: u64,
    amount_high: u128,
    amount_low: u128,
) -> Result<(), Error> {
    if s.balance_of(asset_high, who) < amount_high {
        Err(Error::InsufficientBalance)
    } else if s.balance_of(asset_low, who) < amount_low {
        Err(Error::InsufficientBalance)
    } else if amount_high == 0 {
        Err(Error::ZeroAmount)
    } else if amount_low == 0 {
        Err(Error::ZeroAmount)
    } else {
        Ok(())
    }
}

/// Creating a pool: canonicalize, check the caller's balances, refuse a
/// duplicate pool, bind the native deposit to the derived pool account,
/// register the pool, move both amounts in, create the share asset if it
/// does not exist yet, and mint `floor(sqrt(amount_high * amount_low))`
/// shares to the caller.
pub open spec fn create_pool_tr(
    s: AmmState,
    who: u64,
    asset_a: u64,
    asset_b: u64,
    amount_a: u128,
    amount_b: u128,
) -> (AmmState, Result<(), Error>) {
    if asset_a == asset_b {
        (s, Err(Error::IdenticalAssets))
    } else {
        let (h, l, xh, xl) = canonicalize(asset_a, asset_b, amount_a, amount_b);
        if check_user_balances_spec(s, who, h, l, xh, xl) is Err {
            (s, Err(check_user_balances_spec(s, who, h, l, xh, xl)->Err_0))
        } else {
            let lp = share_asset_id(h, l);
            if xh as int * xl as int > u128::MAX as int {
                (s, Err(Error::ArithmeticOverflow))
            } else {
                let shares = initial_shares(xh, xl) as u128;
                if s.has_pool(h, l) {
                    (s, Err(Error::PoolAlreadyExists))
                } else {
                    let pool = pool_account_id(h, l);
                    match try_native_transfer(s, who, pool, s.pool_deposit) {
                        Err(e) => (s, Err(e)),
                        Ok(s1) => {
                            let s2 = s1.with_pool(h, l, pool);
                            let s3 = s2.with_event(
                                Event::PoolCreated { asset_a: h, asset_b: l, liquidity_id: lp },
                            );
                            match try_transfer(s3, h, who, pool, xh) {
                                Err(e) => (s, Err(e)),
                                Ok(s4) => match try_transfer(s4, l, who, pool, xl) {
                                    Err(e) => (s, Err(e)),
                                    Ok(s5) => {
                                        let s6 = if s5.asset_exists(lp) {
                                            s5
                                        } else {
                                            s5.with_created(lp, PALLET_ACCOUNT)
                                        };
                                        match try_mint(s6, lp, who, shares) {
                                            Err(e) => (s, Err(e)),
                                            Ok(s7) => (s7, Ok(())),
                                        }
                                    },
                                },
                            }
                        },
                    }
                }
            }
        }
    }
}

/// Depositing into an existing pool: shares minted are
/// `min(floor(amount_high * total / reserve_high),
///      floor(amount_low * total / reserve_low))`,
/// so over-supplying one side donates the excess to the pool.
pub open spec fn add_liquidity_tr(
    s: AmmState,
    who: u64,
    asset_a: u64,
    asset_b: u64,
    amount_a: u128,
    amount_b: u128,
) -> (AmmState, Result<(), Error>) {
    if asset_a == asset_b {
        (s, Err(Error::IdenticalAssets))
    } else {
        let (h, l, xh, xl) = canonicalize(asset_a, asset_b, amount_a, amount_b);
        if check_user_balances_spec(s, who, h, l, xh, xl) is Err {
            (s, Err(check_user_balances_spec(s, who, h, l, xh, xl)->Err_0))
        } else {
            let lp = share_asset_id(h, l);
            if !s.has_pool(h, l) {
                (s, Err(Error::PoolDoesNotExist))
            } else {
                let pool = pool_account_id(h, l);
                let reserve_h = s.balance_of(h, pool);
                let reserve_l = s.balance_of(l, pool);
                if reserve_h == 0 || reserve_l == 0 {
                    (s, Err(Error::EmptyPool))
                } else {
                    let total = s.issuance_of(lp);
                    if xh as int * total as int > u128::MAX as int {
                        (s, Err(Error::ArithmeticOverflow))
                    } else {
                        let shares_h = (xh as int * total as int) / (reserve_h as int);
                        if xl as int * total as int > u128::MAX as int {
                            (s, Err(Error::ArithmeticOverflow))
                        } else {
                            let shares_l = (xl as int * total as int) / (reserve_l as int);
                            let shares: u128 = if shares_h <= shares_l {
                                shares_h as u128
                            } else {
                                shares_l as u128
                            };
                            let s1 = s.with_event(
                                Event::LiquidityAdded { asset_a: h, asset_b: l, liquidity_id: lp },
                            );
                            match try_transfer(s1, h, who, pool, xh) {
                                Err(e) => (s, Err(e)),
                                Ok(s2) => match try_transfer(s2, l, who, pool, xl) {
                                    Err(e) => (s, Err(e)),
                                    Ok(s3) => match try_mint(s3, lp, who, shares) {
                                        Err(e) => (s, Err(e)),
                                        Ok(s4) => (s4, Ok(())),
                                    },
                                },
                            }
                        }
                    }
                }
            }
        }
    }
}

/// Withdrawing liquidity: burning `amount_liq` shares pays out
/// `floor(reserve * amount_liq / total)` of each reserve, each of which
/// must reach the caller's stated minimum for its side.
pub open spec fn remove_liquidity_tr(
    s: AmmState,
    who: u64,
    asset_a: u64,
    asset_b: u64,
    min_amount_a: u128,
    min_amount_b: u128,
    amount_liq: u128,
) -> (AmmState, Result<(), Error>) {
    if asset_a == asset_b {
        (s, Err(Error::IdenticalAssets))
    } else {
        let (h, l, min_h, min_l) = canonicalize(asset_a, asset_b, min_amount_a, min_amount_b);
        let lp = share_asset_id(h, l);
        if s.balance_of(lp, who) < amount_liq {
            (s, Err(Error::NotEnoughLiquidityTokens))
        } else if amount_liq == 0 {
            (s, Err(Error::ZeroAmount))
        } else if !s.has_pool(h, l) {
            (s, Err(Error::PoolDoesNotExist))
        } else {
            let pool = pool_account_id(h, l);
            let reserve_h = s.balance_of(h, pool);
            let reserve_l = s.balance_of(l, pool);
            let total = s.issuance_of(lp);
            if reserve_h as int * amount_liq as int > u128::MAX as int {
                (s, Err(Error::ArithmeticOverflow))
            } else if reserve_l as int * amount_liq as int > u128::MAX as int {
                (s, Err(Error::ArithmeticOverflow))
            } else if total == 0 {
                (s, Err(Error::ArithmeticUnderflow))
            } else {
                let out_h = ((reserve_h as int * amount_liq as int) / (total as int)) as u128;
                let out_l = ((reserve_l as int * amount_liq as int) / (total as int)) as u128;
                if out_h < min_h {
                    (s, Err(Error::NotEnoughAssetsA))
                } else if out_l < min_l {
                    (s, Err(Error::NotEnoughAssetsB))
                } else {
                    match try_transfer(s, h, pool, who, out_h) {
                        Err(e) => (s, Err(e)),
                        Ok(s1) => match try_transfer(s1, l, pool, who, out_l) {
                            Err(e) => (s, Err(e)),
                            Ok(s2) => {
                                let s3 = burn_from(s2, lp, who, amount_liq);
                                let s4 = s3.with_event(
                                    Event::LiquidityRemoved {
                                        asset_a: h,
                                        asset_b: l,
                                        liquidity_id: lp,
                                        amount_liq,
                                    },
                                );
                                (s4, Ok(()))
                            },
                        },
                    }
                }
            }
        }
    }
}

/// Removing a pool entirely: the caller must own the whole share issuance;
/// both reserves are paid out, all shares are burned, the native deposit is
/// released, and the registry entry is deleted so the pair can be created
/// again.
pub open spec fn remove_pool_tr(s: AmmState, who: u64, asset_a: u64, asset_b: u64) -> (
    AmmState,
    Result<(), Error>,
) {
    if asset_a == asset_b {
        (s, Err(Error::IdenticalAssets))
    } else {
        let (h, l, _x, _y) = canonicalize(asset_a, asset_b, 0, 0);
        let lp = share_asset_id(h, l);
        if !s.has_pool(h, l) {
            (s, Err(Error::PoolDoesNotExist))
        } else {
            let pool = pool_account_id(h, l);
            let reserve_h = s.balance_of(h, pool);
            let reserve_l = s.balance_of(l, pool);
            let total = s.issuance_of(lp);
            if s.balance_of(lp, who) < total {
                (s, Err(Error::NotEnoughLiquidityTokens))
            } else {
                match try_transfer(s, h, pool, who, reserve_h) {
                    Err(e) => (s, Err(e)),
                    Ok(s1) => match try_transfer(s1, l, pool, who, reserve_l) {
                        Err(e) => (s, Err(e)),
                        Ok(s2) => {
                            let s3 = burn_from(s2, lp, who, total);
                            match try_native_transfer(s3, pool, who, s.pool_deposit) {
                                Err(e) => (s, Err(e)),
                                Ok(s4) => {
                                    let s5 = s4.without_pool(h, l);
                                    let s6 = s5.with_event(
                                        Event::PoolRemoved {
                                            asset_a: h,
                                            asset_b: l,
                                            liquidity_id: lp,
                                        },
                                    );
                                    (s6, Ok(()))
                                },
                            }
                        },
                    },
                }
            }
        }
    }
}

/// An exact-in swap: the fee is taken from the input before the
/// constant-product invariant is applied, and the output must reach
/// `min_out`.
pub open spec fn swap_exact_in_tr(
    s: AmmState,
    who: u64,
    asset_in: u64,
    asset_out: u64,
    exact_in: u128,
    min_out: u128,
) -> (AmmState, Result<(), Error>) {
    if asset_in == asset_out {
        (s, Err(Error::IdenticalAssets))
    } else {
        let (h, l, _x, _y) = canonicalize(asset_in, asset_out, 0, 0);
        if !s.has_pool(h, l) {
            (s, Err(Error::PoolDoesNotExist))
        } else {
            let pool = pool_account_id(h, l);
            if s.balance_of(asset_in, who) < exact_in {
                (s, Err(Error::InsufficientBalance))
            } else {
                let eff = percent_mul_spec((100 - s.fee_percentage) as u32, exact_in);
                let pbi = s.balance_of(asset_in, pool);
                let pbo = s.balance_of(asset_out, pool);
                if pbi as int * pbo as int > u128::MAX as int {
                    (s, Err(Error::ArithmeticOverflow))
                } else if pbi as int + eff > u128::MAX as int {
                    (s, Err(Error::ArithmeticOverflow))
                } else if pbi as int + eff == 0 {
                    (s, Err(Error::ArithmeticUnderflow))
                } else {
                    let out = swap_out_amount(pbi, pbo, eff);
                    if out < 0 {
                        (s, Err(Error::ArithmeticUnderflow))
                    } else if out < min_out {
                        (s, Err(Error::SlippageExceeded))
                    } else {
                        let amount_out = out as u128;
                        match try_transfer(s, asset_in, who, pool, exact_in) {
                            Err(e) => (s, Err(e)),
                            Ok(s1) => match try_transfer(s1, asset_out, pool, who, amount_out) {
                                Err(e) => (s, Err(e)),
                                Ok(s2) => (s2, Ok(())),
                            },
                        }
                    }
                }
            }
        }
    }
}

/// An exact-out swap: the invariant is solved for the pre-fee input, the fee
/// is added on top, and the total charged must not exceed `max_in`.
pub open spec fn swap_in_for_exact_out_tr(
    s: AmmState,
    who: u64,
    asset_in: u64,
    asset_out: u64,
    max_in: u128,
    exact_out: u128,
) -> (AmmState, Result<(), Error>) {
    if asset_in == asset_out {
        (s, Err(Error::IdenticalAssets))
    } else {
        let (h, l, _x, _y) = canonicalize(asset_in, asset_out, 0, 0);
        if !s.has_pool(h, l) {
            (s, Err(Error::PoolDoesNotExist))
        } else {
            let pool = pool_account_id(h, l);
            if s.balance_of(asset_in, who) < max_in {
                (s, Err(Error::InsufficientBalance))
            } else {
                let pbi = s.balance_of(asset_in, pool);
                let pbo = s.balance_of(asset_out, pool);
                if pbo <= exact_out {
                    (s, Err(Error::RequestedExceedsPoolBalance))
                } else if pbi as int * pbo as int > u128::MAX as int {
                    (s, Err(Error::ArithmeticOverflow))
                } else {
                    let before_fee = swap_in_before_fee(pbi, pbo, exact_out);
                    if before_fee < 0 {
                        (s, Err(Error::ArithmeticUnderflow))
                    } else {
                        let fee = percent_mul_spec(s.fee_percentage, before_fee as u128);
                        if before_fee + fee > u128::MAX as int {
                            (s, Err(Error::ArithmeticOverflow))
                        } else {
                            let amount_in = (before_fee + fee) as u128;
                            if amount_in > max_in {
                                (s, Err(Error::SlippageExceeded))
                            } else {
                                match try_transfer(s, asset_in, who, pool, amount_in) {
                                    Err(e) => (s, Err(e)),
                                    Ok(s1) => match try_transfer(
                                        s1,
                                        asset_out,
                                        pool,
                                        who,
                                        exact_out,
                                    ) {
                                        Err(e) => (s, Err(e)),
                                        Ok(s2) => (s2, Ok(())),
                                    },
                                }
                            }
                        }
                    }
                }
            }
        }
    }
}

/// A fee-free spot quote; reads the state and changes nothing.
pub open spec fn get_price_spec(s: AmmState, asset_in: u64, asset_out: u64, amount_in: u128) -> Result<
    u128,
    Error,
> {
    if asset_in == asset_out {
        Err(Error::IdenticalAssets)
    } else {
        let (h, l, _x, _y) = canonicalize(asset_in, asset_out, 0, 0);
        if !s.has_pool(h, l) {
            Err(Error::PoolDoesNotExist)
        } else {
            let pool = pool_account_id(h, l);
            let pbi = s.balance_of(asset_in, pool);
            let pbo = s.balance_of(asset_out, pool);
            if amount_in as int * pbo as int > u128::MAX as int {
                Err(Error::ArithmeticOverflow)
            } else if pbi == 0 {
                Err(Error::ArithmeticOverflow)
            } else {
                Ok(spot_price(amount_in, pbi, pbo) as u128)
            }
        }
    }
}

/// Creates each listed asset that does not exist yet (owned by the engine's
/// own account) and mints the listed amount to `who`, in order.
pub open spec fn setup_assets_tr(s: AmmState, who: u64, assets: Seq<(u64, u128)>) -> Result<
    AmmState,
    Error,
>
    decreases assets.len(),
{
    if assets.len() == 0 {
        Ok(s)
    } else {
        let (asset, amount) = assets[0];
        let s1 = if s.asset_exists(asset) {
            s
        } else {
            s.with_created(asset, PALLET_ACCOUNT)
        };
        match try_mint(s1, asset, who, amount) {
            Err(e) => Err(e),
            Ok(s2) => setup_assets_tr(s2, who, assets.drop_first()),
        }
    }
}

/// Funding an account for tests and bootstrapping: mints native currency
/// and the listed asset amounts, creating missing assets on the way.
pub open spec fn setup_account_tr(
    s: AmmState,
    who: u64,
    native_balance: u128,
    assets: Seq<(u64, u128)>,
) -> (AmmState, Result<(), Error>) {
    match try_native_mint(s, who, native_balance) {
        Err(e) => (s, Err(e)),
        Ok(s1) => match setup_assets_tr(s1, who, assets) {
            Err(e) => (s, Err(e)),
            Ok(s2) => (s2, Ok(())),
        },
    }
}

} // verus!
