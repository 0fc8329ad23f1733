use subdex::asset::Asset;
use subdex::dex::{Dex, Event};
use subdex::errors::Error;
use subdex::exchange::Exchange;

const NATIVE: Asset = Asset::MainNetworkCurrency;
const BRIDGED: Asset = Asset::ParachainAsset(1);

fn fresh_dex() -> Dex {
    let mut dex = Dex::new(3, 1000, None);
    dex.mint_asset(1, NATIVE, 1_000_000);
    dex.mint_asset(1, BRIDGED, 2_000_000);
    dex.mint_asset(2, NATIVE, 1_000_000);
    dex.mint_asset(2, BRIDGED, 2_000_000);
    dex
}

#[test]
fn initialize_sets_reserves_invariant_and_shares() {
    let mut dex = fresh_dex();
    let event = dex.initialize_exchange(1, NATIVE, 1000, BRIDGED, 2000).unwrap();
    assert_eq!(event, Event::Invested(1, NATIVE, BRIDGED, 1000));
    assert_eq!(dex.exchange_state(NATIVE, BRIDGED), (1000, 2000, 2_000_000, 1000));
    assert_eq!(dex.account_pool_shares(NATIVE, BRIDGED, 1), 1000);
    assert_eq!(dex.balance_of_account(1, NATIVE), 1_000_000 - 1000);
    assert_eq!(dex.balance_of_account(1, BRIDGED), 2_000_000 - 2000);
}

#[test]
fn initialize_accepts_either_argument_order() {
    let mut dex = fresh_dex();
    dex.initialize_exchange(1, BRIDGED, 2000, NATIVE, 1000).unwrap();
    assert_eq!(dex.exchange_state(NATIVE, BRIDGED), (1000, 2000, 2_000_000, 1000));
}

#[test]
fn initialize_rejects_degenerate_pair() {
    let mut dex = fresh_dex();
    assert_eq!(
        dex.initialize_exchange(1, NATIVE, 10, NATIVE, 10),
        Err(Error::InvalidExchange)
    );
    assert_eq!(dex.balance_of_account(1, NATIVE), 1_000_000);
}

#[test]
fn initialize_rejects_zero_amounts() {
    let mut dex = fresh_dex();
    assert_eq!(
        dex.initialize_exchange(1, NATIVE, 0, BRIDGED, 5),
        Err(Error::LowFirstAssetAmount)
    );
    assert_eq!(
        dex.initialize_exchange(1, NATIVE, 5, BRIDGED, 0),
        Err(Error::LowSecondAssetAmount)
    );
}

#[test]
fn initialize_rejects_existing_pool() {
    let mut dex = fresh_dex();
    dex.initialize_exchange(1, NATIVE, 1000, BRIDGED, 2000).unwrap();
    assert_eq!(
        dex.initialize_exchange(2, NATIVE, 10, BRIDGED, 10),
        Err(Error::ExchangeAlreadyExists)
    );
}

#[test]
fn initialize_rejects_insufficient_balances() {
    let mut dex = Dex::new(3, 1000, None);
    dex.mint_asset(9, NATIVE, 5);
    dex.mint_asset(9, BRIDGED, 5);
    assert_eq!(
        dex.initialize_exchange(9, NATIVE, 10, BRIDGED, 2),
        Err(Error::InsufficientKsmBalance)
    );
    assert_eq!(
        dex.initialize_exchange(9, NATIVE, 2, BRIDGED, 10),
        Err(Error::InsufficientOtherAssetBalance)
    );
    assert_eq!(dex.balance_of_account(9, NATIVE), 5);
    assert_eq!(dex.balance_of_account(9, BRIDGED), 5);
}

#[test]
fn initialize_rejects_invariant_overflow() {
    let mut dex = Dex::new(3, 1000, None);
    dex.mint_asset(4, NATIVE, u128::MAX);
    dex.mint_asset(4, BRIDGED, 2);
    assert_eq!(
        dex.initialize_exchange(4, NATIVE, u128::MAX, BRIDGED, 2),
        Err(Error::OverflowOccured)
    );
    assert_eq!(dex.exchange_state(NATIVE, BRIDGED), (0, 0, 0, 0));
}

#[test]
fn invest_charges_rounded_up_costs() {
    let mut dex = fresh_dex();
    dex.initialize_exchange(1, NATIVE, 1000, BRIDGED, 2000).unwrap();
    let event = dex.invest_liquidity(2, NATIVE, BRIDGED, 333).unwrap();
    assert_eq!(event, Event::Invested(2, NATIVE, BRIDGED, 333));
    assert_eq!(dex.exchange_state(NATIVE, BRIDGED), (1333, 2666, 1333 * 2666, 1333));
    assert_eq!(dex.account_pool_shares(NATIVE, BRIDGED, 2), 333);
    assert_eq!(dex.balance_of_account(2, NATIVE), 1_000_000 - 333);
    assert_eq!(dex.balance_of_account(2, BRIDGED), 2_000_000 - 666);
}

#[test]
fn invest_then_divest_returns_at_most_the_deposit() {
    let mut dex = fresh_dex();
    dex.initialize_exchange(1, NATIVE, 1000, BRIDGED, 2000).unwrap();
    dex.invest_liquidity(2, NATIVE, BRIDGED, 333).unwrap();
    let event = dex.divest_liquidity(2, NATIVE, BRIDGED, 333, 0, 0).unwrap();
    assert_eq!(event, Event::Divested(2, NATIVE, BRIDGED, 333));
    // total shares and reserves are back to their pre-invest values, and
    // the round trip never paid out more than it took in
    assert_eq!(dex.exchange_state(NATIVE, BRIDGED), (1000, 2000, 2_000_000, 1000));
    assert_eq!(dex.account_pool_shares(NATIVE, BRIDGED, 2), 0);
    assert!(dex.balance_of_account(2, NATIVE) <= 1_000_000);
    assert!(dex.balance_of_account(2, BRIDGED) <= 2_000_000);
}

#[test]
fn invest_rejects_zero_shares() {
    let mut dex = fresh_dex();
    dex.initialize_exchange(1, NATIVE, 1000, BRIDGED, 2000).unwrap();
    assert_eq!(dex.invest_liquidity(2, NATIVE, BRIDGED, 0), Err(Error::InvalidShares));
}

#[test]
fn invest_rejects_missing_pool() {
    let mut dex = fresh_dex();
    assert_eq!(dex.invest_liquidity(2, NATIVE, BRIDGED, 5), Err(Error::ExchangeNotExists));
}

#[test]
fn invest_share_overflow_fails_and_changes_nothing() {
    let mut dex = Dex::new(3, 1000, None);
    dex.mint_asset(5, NATIVE, u128::MAX);
    dex.mint_asset(5, Asset::ParachainAsset(7), 10);
    dex.initialize_exchange(5, NATIVE, u128::MAX, Asset::ParachainAsset(7), 1).unwrap();
    let before = dex.exchange_state(NATIVE, Asset::ParachainAsset(7));
    assert_eq!(
        dex.invest_liquidity(5, NATIVE, Asset::ParachainAsset(7), 1),
        Err(Error::OverflowOccured)
    );
    assert_eq!(dex.exchange_state(NATIVE, Asset::ParachainAsset(7)), before);
    assert_eq!(dex.balance_of_account(5, NATIVE), 0);
}

#[test]
fn divest_rejects_unowned_and_excessive_shares() {
    let mut dex = fresh_dex();
    dex.initialize_exchange(1, NATIVE, 1000, BRIDGED, 2000).unwrap();
    // account 2 owns nothing of the pool
    assert_eq!(
        dex.divest_liquidity(2, NATIVE, BRIDGED, 1, 0, 0),
        Err(Error::DoesNotOwnShare)
    );
    dex.invest_liquidity(2, NATIVE, BRIDGED, 10).unwrap();
    let before = dex.exchange_state(NATIVE, BRIDGED);
    assert_eq!(
        dex.divest_liquidity(2, NATIVE, BRIDGED, 11, 0, 0),
        Err(Error::InsufficientShares)
    );
    assert_eq!(dex.exchange_state(NATIVE, BRIDGED), before);
    assert_eq!(dex.account_pool_shares(NATIVE, BRIDGED, 2), 10);
}

#[test]
fn divest_enforces_minimum_payouts() {
    let mut dex = fresh_dex();
    dex.initialize_exchange(1, NATIVE, 1000, BRIDGED, 2000).unwrap();
    // burning 10 of 1000 shares pays out (10, 20)
    assert_eq!(
        dex.divest_liquidity(1, NATIVE, BRIDGED, 10, 11, 0),
        Err(Error::FirstAssetAmountBelowExpectation)
    );
    assert_eq!(
        dex.divest_liquidity(1, NATIVE, BRIDGED, 10, 10, 21),
        Err(Error::SecondAssetAmountBelowExpectation)
    );
    dex.divest_liquidity(1, NATIVE, BRIDGED, 10, 10, 20).unwrap();
    assert_eq!(dex.exchange_state(NATIVE, BRIDGED), (990, 1980, 990 * 1980, 990));
}

#[test]
fn full_divest_returns_pool_to_dormant_state_and_allows_relaunch() {
    let mut dex = fresh_dex();
    dex.initialize_exchange(1, NATIVE, 1000, BRIDGED, 2000).unwrap();
    dex.divest_liquidity(1, NATIVE, BRIDGED, 1000, 0, 0).unwrap();
    assert_eq!(dex.exchange_state(NATIVE, BRIDGED), (0, 0, 0, 0));
    assert_eq!(dex.balance_of_account(1, NATIVE), 1_000_000);
    assert_eq!(dex.balance_of_account(1, BRIDGED), 2_000_000);
    dex.initialize_exchange(1, NATIVE, 50, BRIDGED, 60).unwrap();
    assert_eq!(dex.exchange_state(NATIVE, BRIDGED), (50, 60, 3000, 50));
}

#[test]
fn launch_gate_reports_leftover_invariant_or_shares() {
    let (live, _) = Exchange::initialize_new(10, 20, 1).unwrap();
    assert_eq!(live.ensure_launch(), Err(Error::InvariantNotNull));
    let odd = Exchange {
        first_asset_pool: 0,
        second_asset_pool: 0,
        invariant: 0,
        total_shares: 5,
        shares: Vec::new(),
    };
    assert_eq!(odd.ensure_launch(), Err(Error::TotalSharesNotNull));
    assert_eq!(Exchange::empty().ensure_launch(), Ok(()));
}
