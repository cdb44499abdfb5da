//! Concrete checks of the engine's general laws and of every error
//! variant: canonicalization symmetry, constant-product behaviour under
//! both swap forms, round-trip conservation, slippage enforcement, and the
//! edge cases of each arithmetic guard.

use dex::Config;
use dex::Error;
use dex::Event;
use dex::Pallet;

fn new_dex() -> Pallet {
    Pallet::new(Config { fee_percentage: 5, pool_deposit: 1_000 })
}

fn funded_dex() -> Pallet {
    let mut dex = new_dex();
    assert!(dex.setup_account(1, 1_000_000, vec![(1, 100_000), (2, 100_000), (3, 1_000)]).is_ok());
    assert!(dex.setup_account(2, 1_000_000, vec![(1, 100_000), (2, 100_000), (3, 1_000)]).is_ok());
    dex
}

#[test]
fn order_asset_ids_is_symmetric() {
    assert_eq!(Pallet::order_asset_ids(1, 2, 10, 20), Ok((2, 1, 20, 10)));
    assert_eq!(
        Pallet::order_asset_ids(1, 2, 10, 20),
        Pallet::order_asset_ids(2, 1, 20, 10)
    );
    assert_eq!(Pallet::order_asset_ids(9, 4, 7, 8), Pallet::order_asset_ids(4, 9, 8, 7));
    assert_eq!(Pallet::order_asset_ids(7, 7, 1, 2), Err(Error::IdenticalAssets));
}

#[test]
fn integer_sqrt_exact_values() {
    assert_eq!(Pallet::get_sqrt_of_asset_balance(0), 0);
    assert_eq!(Pallet::get_sqrt_of_asset_balance(1), 1);
    assert_eq!(Pallet::get_sqrt_of_asset_balance(2), 1);
    assert_eq!(Pallet::get_sqrt_of_asset_balance(4), 2);
    assert_eq!(Pallet::get_sqrt_of_asset_balance(150_000), 387);
    assert_eq!(Pallet::get_sqrt_of_asset_balance(u128::MAX), u64::MAX as u128);
}

#[test]
fn derived_identifiers_are_deterministic() {
    assert_eq!(Pallet::create_liquidity_id(2, 1), Pallet::create_liquidity_id(2, 1));
    assert_ne!(Pallet::create_liquidity_id(2, 1), Pallet::create_liquidity_id(3, 1));
    assert_eq!(
        Pallet::generate_account_from_asset_id_pair(2, 1),
        Pallet::generate_account_from_asset_id_pair(2, 1)
    );
    // the share asset and the pool account live in different domains
    assert_ne!(
        Pallet::create_liquidity_id(2, 1),
        Pallet::generate_account_from_asset_id_pair(2, 1)
    );
}

#[test]
fn swap_fee_is_reported() {
    let dex = new_dex();
    assert_eq!(dex.swap_fee(), 5);
}

#[test]
fn reserve_product_does_not_decrease_across_swaps() {
    let mut dex = funded_dex();
    assert!(dex.create_pool(1, 1, 2, 30_000, 50_000).is_ok());
    let pool = Pallet::generate_account_from_asset_id_pair(2, 1);

    let before = dex.balance_of(1, pool) * dex.balance_of(2, pool);
    assert!(dex.swap_exact_in_for_out(2, 1, 2, 300, 450).is_ok());
    let after_in = dex.balance_of(1, pool) * dex.balance_of(2, pool);
    assert!(after_in >= before);

    assert!(dex.swap_in_for_exact_out(2, 2, 1, 1_000, 400).is_ok());
    let after_out = dex.balance_of(1, pool) * dex.balance_of(2, pool);
    assert!(after_out >= after_in);
}

#[test]
fn round_trip_returns_the_deposit() {
    let mut dex = funded_dex();
    let native_before = dex.native_balance_of(1);
    let a_before = dex.balance_of(1, 1);
    let b_before = dex.balance_of(2, 1);

    assert!(dex.create_pool(1, 1, 2, 300, 500).is_ok());
    assert!(dex.remove_pool(1, 1, 2).is_ok());

    assert_eq!(dex.balance_of(1, 1), a_before);
    assert_eq!(dex.balance_of(2, 1), b_before);
    assert_eq!(dex.native_balance_of(1), native_before);
    assert_eq!(dex.total_issuance(Pallet::create_liquidity_id(2, 1)), 0);
}

#[test]
fn pool_can_be_recreated_after_removal() {
    let mut dex = funded_dex();
    assert!(dex.create_pool(1, 1, 2, 300, 500).is_ok());
    assert!(dex.remove_pool(1, 1, 2).is_ok());
    assert!(dex.create_pool(1, 2, 1, 100, 100).is_ok());
}

#[test]
fn exact_out_duality_example() {
    // an exact-in swap, and the exact-out purchase of the same output from
    // an identical pool: the charge covers the fee-reduced input (285) but
    // the differing fee rounding makes it one unit under the gross input
    let mut dex_a = funded_dex();
    assert!(dex_a.create_pool(1, 1, 2, 30_000, 50_000).is_ok());
    let bal2_before = dex_a.balance_of(2, 2);
    assert!(dex_a.swap_exact_in_for_out(2, 1, 2, 300, 0).is_ok());
    let received = dex_a.balance_of(2, 2) - bal2_before;
    assert_eq!(received, 471);

    let mut dex_b = funded_dex();
    assert!(dex_b.create_pool(1, 1, 2, 30_000, 50_000).is_ok());
    let bal1_before = dex_b.balance_of(1, 2);
    assert!(dex_b.swap_in_for_exact_out(2, 1, 2, 1_000, received).is_ok());
    let paid = bal1_before - dex_b.balance_of(1, 2);
    assert_eq!(paid, 299);
    assert!(paid >= 285);
}

#[test]
fn slippage_failure_leaves_balances_unchanged() {
    let mut dex = funded_dex();
    assert!(dex.create_pool(1, 1, 2, 30_000, 50_000).is_ok());
    let pool = Pallet::generate_account_from_asset_id_pair(2, 1);
    let user_in = dex.balance_of(1, 2);
    let user_out = dex.balance_of(2, 2);
    let pool_in = dex.balance_of(1, pool);
    let pool_out = dex.balance_of(2, pool);

    // the computed output of 471 misses the minimum
    assert_eq!(dex.swap_exact_in_for_out(2, 1, 2, 300, 472), Err(Error::SlippageExceeded));

    assert_eq!(dex.balance_of(1, 2), user_in);
    assert_eq!(dex.balance_of(2, 2), user_out);
    assert_eq!(dex.balance_of(1, pool), pool_in);
    assert_eq!(dex.balance_of(2, pool), pool_out);
}

#[test]
fn exact_out_slippage_is_enforced() {
    let mut dex = funded_dex();
    assert!(dex.create_pool(1, 1, 2, 30_000, 50_000).is_ok());
    // buying 471 costs 299, so a cap of 298 is refused
    assert_eq!(dex.swap_in_for_exact_out(2, 1, 2, 298, 471), Err(Error::SlippageExceeded));
    assert!(dex.swap_in_for_exact_out(2, 1, 2, 299, 471).is_ok());
}

#[test]
fn identical_assets_are_refused() {
    let mut dex = funded_dex();
    assert_eq!(dex.create_pool(1, 1, 1, 10, 10), Err(Error::IdenticalAssets));
    assert_eq!(dex.get_price(3, 3, 5), Err(Error::IdenticalAssets));
}

#[test]
fn zero_amounts_are_refused() {
    let mut dex = funded_dex();
    assert_eq!(dex.create_pool(1, 1, 2, 0, 100), Err(Error::ZeroAmount));
    assert_eq!(dex.create_pool(1, 1, 2, 100, 0), Err(Error::ZeroAmount));
}

#[test]
fn insufficient_balances_are_refused() {
    let mut dex = funded_dex();
    assert!(dex.create_pool(1, 1, 2, 30_000, 50_000).is_ok());
    // account 2 holds 100_000 of asset 1
    assert_eq!(
        dex.swap_exact_in_for_out(2, 1, 2, 100_001, 0),
        Err(Error::InsufficientBalance)
    );
    assert_eq!(dex.add_liquidity(2, 1, 2, 100_001, 10), Err(Error::InsufficientBalance));
}

#[test]
fn create_pool_needs_the_native_deposit() {
    let mut dex = new_dex();
    assert!(dex.setup_account(1, 500, vec![(1, 1_000), (2, 1_000)]).is_ok());
    // asset balances suffice, but the native deposit of 1_000 does not
    assert_eq!(dex.create_pool(1, 1, 2, 100, 200), Err(Error::InsufficientBalance));
}

#[test]
fn exact_out_cannot_drain_the_reserve() {
    let mut dex = funded_dex();
    assert!(dex.create_pool(1, 1, 2, 30_000, 50_000).is_ok());
    assert_eq!(
        dex.swap_in_for_exact_out(2, 1, 2, 100_000, 50_000),
        Err(Error::RequestedExceedsPoolBalance)
    );
    assert_eq!(
        dex.swap_in_for_exact_out(2, 1, 2, 100_000, 50_001),
        Err(Error::RequestedExceedsPoolBalance)
    );
}

#[test]
fn withdrawal_minimums_name_the_failing_side() {
    let mut dex = funded_dex();
    assert!(dex.create_pool(1, 1, 2, 300, 500).is_ok());
    // 100 of 387 shares pay out 77 of asset 1 and 129 of asset 2;
    // asset 2 is the high side of the canonical pair
    assert_eq!(dex.remove_liquidity(1, 1, 2, 10, 130, 100), Err(Error::NotEnoughAssetsA));
    assert_eq!(dex.remove_liquidity(1, 1, 2, 78, 129, 100), Err(Error::NotEnoughAssetsB));
    assert!(dex.remove_liquidity(1, 1, 2, 77, 129, 100).is_ok());
}

#[test]
fn drained_pool_refuses_proportional_deposits() {
    let mut dex = funded_dex();
    assert!(dex.create_pool(1, 1, 2, 300, 500).is_ok());
    // burn every share: the payout is the whole reserve on both sides
    assert!(dex.remove_liquidity(1, 1, 2, 300, 500, 387).is_ok());
    let pool = Pallet::generate_account_from_asset_id_pair(2, 1);
    assert_eq!(dex.balance_of(1, pool), 0);
    assert_eq!(dex.balance_of(2, pool), 0);
    assert_eq!(dex.add_liquidity(1, 1, 2, 10, 10), Err(Error::EmptyPool));
}

#[test]
fn overflowing_deposit_product_is_refused() {
    let mut dex = new_dex();
    assert!(dex.setup_account(1, 10_000, vec![(1, u128::MAX), (2, u128::MAX)]).is_ok());
    assert_eq!(dex.create_pool(1, 1, 2, u128::MAX, 2), Err(Error::ArithmeticOverflow));
}

#[test]
fn swap_against_drained_pool_underflows() {
    let mut dex = funded_dex();
    assert!(dex.create_pool(1, 1, 2, 300, 500).is_ok());
    assert!(dex.remove_liquidity(1, 1, 2, 300, 500, 387).is_ok());
    // both reserves are zero and the fee-reduced input is zero, so the
    // divisor of the invariant vanishes
    assert_eq!(dex.swap_exact_in_for_out(1, 1, 2, 0, 0), Err(Error::ArithmeticUnderflow));
}

#[test]
fn zero_reserve_price_is_an_inconsistency() {
    let mut dex = funded_dex();
    assert!(dex.create_pool(1, 1, 2, 300, 500).is_ok());
    assert!(dex.remove_liquidity(1, 1, 2, 300, 500, 387).is_ok());
    assert_eq!(dex.get_price(1, 2, 200), Err(Error::ArithmeticOverflow));
}

#[test]
fn removing_zero_shares_is_refused() {
    let mut dex = funded_dex();
    assert!(dex.create_pool(1, 1, 2, 300, 500).is_ok());
    assert_eq!(dex.remove_liquidity(1, 1, 2, 0, 0, 0), Err(Error::ZeroAmount));
}

#[test]
fn events_record_the_pool_lifecycle() {
    let mut dex = funded_dex();
    assert!(dex.create_pool(1, 1, 2, 300, 500).is_ok());
    let lp = Pallet::create_liquidity_id(2, 1);
    assert_eq!(
        dex.events().last(),
        Some(&Event::PoolCreated { asset_a: 2, asset_b: 1, liquidity_id: lp })
    );
    assert!(dex.remove_pool(1, 1, 2).is_ok());
    assert_eq!(
        dex.events().last(),
        Some(&Event::PoolRemoved { asset_a: 2, asset_b: 1, liquidity_id: lp })
    );
}

#[test]
fn donated_excess_mints_no_extra_shares() {
    let mut dex = funded_dex();
    assert!(dex.create_pool(1, 1, 2, 1_000, 1_000).is_ok());
    let lp = Pallet::create_liquidity_id(2, 1);
    let shares_before = dex.total_issuance(lp);
    assert_eq!(shares_before, 1_000);
    // asset 1 is over-supplied; shares follow the limiting side, and the
    // excess is donated to the pool
    assert!(dex.add_liquidity(2, 1, 2, 500, 100).is_ok());
    assert_eq!(dex.total_issuance(lp), 1_100);
    let pool = Pallet::generate_account_from_asset_id_pair(2, 1);
    assert_eq!(dex.balance_of(1, pool), 1_500);
    assert_eq!(dex.balance_of(2, pool), 1_100);
}
