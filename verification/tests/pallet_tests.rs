//! End-to-end tests of the exchange: pool lifecycle, liquidity math,
//! swaps in both forms, and the price query.

use dex::Config;
use dex::Error;
use dex::Pallet;

fn new_dex() -> Pallet {
    Pallet::new(Config { fee_percentage: 5, pool_deposit: 1_000 })
}

fn create_multiple_accounts(dex: &mut Pallet) -> Vec<u64> {
    let mut accounts = Vec::new();
    for i in 0..10u64 {
        let account_id = i + 1;
        assert!(dex.setup_account(account_id, 1_000_000, vec![(1, 100), (2, 200), (3, 300)]).is_ok());
        accounts.push(account_id);
    }
    accounts
}

#[test]
fn test_create_multiple_accounts() {
    let mut dex = new_dex();
    let accounts = create_multiple_accounts(&mut dex);
    assert_eq!(accounts.len(), 10);
}

#[test]
fn test_setup_function() {
    let mut dex = new_dex();
    assert_eq!(dex.native_balance_of(1), 0);

    assert!(dex.setup_account(1, 1_000_000, vec![(1, 100), (2, 200), (3, 300)]).is_ok());

    assert_eq!(dex.native_balance_of(1), 1_000_000);

    assert_eq!(dex.balance_of(0, 1), 0);
    assert_eq!(dex.balance_of(1, 1), 100);
    assert_eq!(dex.balance_of(2, 1), 200);
    assert_eq!(dex.balance_of(3, 1), 300);

    assert!(dex.setup_account(2, 1_000_000, vec![(1, 100), (2, 200), (3, 300)]).is_ok());
}

#[test]
fn create_pool() {
    let mut dex = new_dex();
    assert!(dex.setup_account(1, 1_000_000, vec![(1, 1_000), (2, 1_000), (3, 1_000)]).is_ok());

    // checks if it can create a pool
    assert!(dex.create_pool(1, 1, 2, 100, 200).is_ok());
    assert_eq!(dex.balance_of(1, 1), 900);
    assert_eq!(dex.balance_of(2, 1), 800);

    // pool already exists; a second creation must be refused
    assert_eq!(dex.create_pool(1, 1, 2, 100, 100), Err(Error::PoolAlreadyExists));
}

#[test]
fn create_pool_and_add_more_liquidity() {
    let mut dex = new_dex();
    assert!(dex.setup_account(1, 1_000_000, vec![(1, 1_000), (2, 1_000), (3, 1_000)]).is_ok());

    assert!(dex.create_pool(1, 1, 2, 100, 200).is_ok());
    assert_eq!(dex.balance_of(1, 1), 900);
    assert_eq!(dex.balance_of(2, 1), 800);

    // second account
    assert!(dex.setup_account(2, 1_000_000, vec![(1, 1_000), (2, 1_000), (3, 1_000)]).is_ok());

    // add more liquidity
    assert!(dex.add_liquidity(2, 1, 2, 100, 200).is_ok());
    assert_eq!(dex.balance_of(1, 2), 900);
    assert_eq!(dex.balance_of(2, 2), 800);
}

#[test]
fn create_pool_and_remove_some_liquidity() {
    let mut dex = new_dex();
    assert!(dex.setup_account(1, 1_000_000, vec![(1, 1_000), (2, 1_000), (3, 1_000)]).is_ok());

    assert!(dex.create_pool(1, 1, 2, 300, 500).is_ok());
    assert_eq!(dex.balance_of(1, 1), 700);
    assert_eq!(dex.balance_of(2, 1), 500);

    // the liquidity-share balance of the creator
    assert_eq!(dex.balance_of(Pallet::create_liquidity_id(2, 1), 1), 387);

    // second account
    assert!(dex.setup_account(2, 1_000_000, vec![(1, 1_000), (2, 1_000), (3, 1_000)]).is_ok());

    // refused: this user holds no liquidity tokens
    assert_eq!(dex.remove_liquidity(2, 1, 2, 10, 30, 100), Err(Error::NotEnoughLiquidityTokens));

    // remove liquidity
    assert!(dex.remove_liquidity(1, 1, 2, 10, 30, 100).is_ok());
    assert_eq!(dex.balance_of(1, 1), 777);
    assert_eq!(dex.balance_of(2, 1), 629);

    assert_eq!(dex.balance_of(Pallet::create_liquidity_id(2, 1), 1), 287);
}

#[test]
fn create_pool_and_remove_it() {
    let mut dex = new_dex();
    assert!(dex.setup_account(1, 1_000_000, vec![(1, 1_000), (2, 1_000), (3, 1_000)]).is_ok());

    assert!(dex.create_pool(1, 1, 2, 300, 500).is_ok());
    assert_eq!(dex.balance_of(1, 1), 700);
    assert_eq!(dex.balance_of(2, 1), 500);

    assert_eq!(dex.balance_of(Pallet::create_liquidity_id(2, 1), 1), 387);

    // the native balance is decreased by the pool's bootstrap deposit
    assert_eq!(dex.native_balance_of(1), 999_000);

    // second account
    assert!(dex.setup_account(2, 1_000_000, vec![(1, 1_000), (2, 1_000), (3, 1_000)]).is_ok());

    // refused: this user holds no liquidity tokens
    assert_eq!(dex.remove_pool(2, 1, 2), Err(Error::NotEnoughLiquidityTokens));

    // remove the pool
    assert!(dex.remove_pool(1, 1, 2).is_ok());
    assert_eq!(dex.balance_of(1, 1), 1_000);
    assert_eq!(dex.balance_of(2, 1), 1_000);

    assert_eq!(dex.balance_of(Pallet::create_liquidity_id(2, 1), 1), 0);

    // the bootstrap deposit is returned
    assert_eq!(dex.native_balance_of(1), 1_000_000);
}

#[test]
fn create_pool_and_swap() {
    let mut dex = new_dex();
    assert!(dex.setup_account(1, 1_000_000, vec![(1, 100_000), (2, 100_000), (3, 1_000)]).is_ok());

    assert!(dex.create_pool(1, 1, 2, 30_000, 50_000).is_ok());

    assert!(dex.setup_account(2, 1_000_000, vec![(1, 1_000), (2, 1_000), (3, 1_000)]).is_ok());

    assert!(dex.swap_exact_in_for_out(2, 1, 2, 300, 450).is_ok());

    assert_eq!(dex.balance_of(1, 2), 1000 - 300);
    assert_eq!(dex.balance_of(2, 2), 1471);
}

#[test]
fn create_pool_and_swap_exact_out() {
    let mut dex = new_dex();
    assert!(
        dex.setup_account(1, 1_000_000, vec![(1, 1_000_000), (2, 1_000_000), (3, 1_000)]).is_ok()
    );

    assert!(dex.create_pool(1, 1, 2, 300_000, 500_000).is_ok());

    assert!(dex.setup_account(2, 1_000_000, vec![(1, 100_000), (2, 100_000), (3, 1_000)]).is_ok());

    assert!(dex.swap_in_for_exact_out(2, 1, 2, 4_300, 5_000).is_ok());
}

#[test]
fn create_pool_and_swap_uniswap_example() {
    let mut dex = new_dex();
    assert!(
        dex.setup_account(1, 1_000_000, vec![(1, 10_000_000), (2, 10_000_000), (3, 1_000)]).is_ok()
    );

    assert!(dex.create_pool(1, 1, 2, 1_200_000, 400_000).is_ok());

    assert!(
        dex.setup_account(2, 1_000_000, vec![(1, 10_000_000), (2, 10_000_000), (3, 1_000)]).is_ok()
    );

    assert!(dex.swap_exact_in_for_out(2, 1, 2, 3009, 900).is_ok());

    assert_eq!(dex.balance_of(1, 2), 10_000_000 - 3009);
    assert_eq!(dex.balance_of(2, 2), 10_000_951);

    // the quoted output stays far below this minimum, so the swap is refused
    assert_eq!(dex.swap_exact_in_for_out(2, 1, 2, 3000, 11_000), Err(Error::SlippageExceeded));
}

// Checks whether the pool creator makes a profit after a number of swaps.
#[test]
fn check_if_pool_creator_makes_a_profit() {
    let mut dex = new_dex();
    assert!(
        dex.setup_account(1, 1_000_000, vec![(1, 100_000_000), (2, 100_000_000), (3, 1_000)])
            .is_ok()
    );

    assert!(dex.create_pool(1, 1, 2, 1_000_000, 1_000_000).is_ok());

    assert!(
        dex.setup_account(2, 1_000_000, vec![(1, 10_000_000), (2, 10_000_000), (3, 1_000)]).is_ok()
    );

    for _i in 0..=100 {
        assert!(dex.swap_exact_in_for_out(2, 1, 2, 100, 95).is_ok());
        assert!(dex.swap_exact_in_for_out(2, 2, 1, 100, 95).is_ok());
    }
    // the transacting party makes a loss
    assert_eq!(dex.balance_of(1, 2), 9_999_596);
    assert_eq!(dex.balance_of(2, 2), 9_999_500);

    // remove the pool
    assert!(dex.remove_pool(1, 1, 2).is_ok());
    // the party who created the pool makes a profit
    assert_eq!(dex.balance_of(1, 1), 100_000_404);
    assert_eq!(dex.balance_of(2, 1), 100_000_000 + 500);
}

// Checks whether the pool creator makes a profit after exact-out swaps.
#[test]
fn check_if_pool_creator_makes_a_profit_exact_out() {
    let mut dex = new_dex();
    assert!(
        dex.setup_account(1, 10_000_000, vec![(1, 10_000_000), (2, 10_000_000), (3, 1_000)])
            .is_ok()
    );

    assert!(dex.create_pool(1, 1, 2, 10_000_000, 10_000_000).is_ok());

    assert!(
        dex.setup_account(2, 1_000_000, vec![(1, 10_000_000), (2, 10_000_000), (3, 1_000)]).is_ok()
    );

    for _i in 0..=100 {
        assert!(dex.swap_in_for_exact_out(2, 1, 2, 200, 100).is_ok());
        assert!(dex.swap_in_for_exact_out(2, 2, 1, 200, 100).is_ok());
    }
    // the transacting party makes a loss
    assert_eq!(dex.balance_of(1, 2), 9_999_495);
    assert_eq!(dex.balance_of(2, 2), 9_999_596);

    // remove the pool
    assert!(dex.remove_pool(1, 1, 2).is_ok());
    // the party who created the pool makes a profit
    assert_eq!(dex.balance_of(1, 1), 10_000_000 + 505);
    assert_eq!(dex.balance_of(2, 1), 10_000_000 + 404);
}

#[test]
fn test_get_price() {
    let mut dex = new_dex();
    assert!(
        dex.setup_account(1, 10_000_000, vec![(1, 10_000_000), (2, 10_000_000), (3, 1_000)])
            .is_ok()
    );

    assert!(dex.create_pool(1, 1, 2, 100_000, 200_000).is_ok());

    assert_eq!(dex.get_price(1, 2, 200), Ok(400));
}

#[test]
fn test_get_price_fail() {
    let dex = new_dex();
    assert_eq!(dex.get_price(1, 2, 200), Err(Error::PoolDoesNotExist));
}

#[test]
fn try_to_create_pool_in_different_orders() {
    let mut dex = new_dex();
    assert!(
        dex.setup_account(1, 10_000_000, vec![(1, 10_000_000), (2, 10_000_000), (3, 1_000)])
            .is_ok()
    );
    assert!(dex.create_pool(1, 1, 2, 100_000, 200_000).is_ok());
    assert_eq!(dex.create_pool(1, 2, 1, 100_000, 200_000), Err(Error::PoolAlreadyExists));
}
