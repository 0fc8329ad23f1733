use subdex::asset::Asset;
use subdex::dex::{Dex, Event};
use subdex::errors::Error;
use subdex::treasury::DexTreasury;

const NATIVE: Asset = Asset::MainNetworkCurrency;
const BRIDGED: Asset = Asset::ParachainAsset(1);

fn pool_dex(treasury: Option<DexTreasury>) -> Dex {
    let mut dex = Dex::new(3, 1000, treasury);
    dex.mint_asset(1, NATIVE, 1_000_000);
    dex.mint_asset(1, BRIDGED, 2_000_000);
    dex.initialize_exchange(1, NATIVE, 1000, BRIDGED, 2000).unwrap();
    dex
}

#[test]
fn swap_follows_constant_product_formula() {
    let mut dex = pool_dex(None);
    // fee = 100 * 3 / 1000 = 0, net = 100,
    // out = 100 * 2000 / (1000 + 100) = 181
    let event = dex.swap_to_exact(1, NATIVE, 100, BRIDGED, 0, 1).unwrap();
    assert_eq!(event, Event::Exchanged(1, NATIVE, 100, BRIDGED, 181, None));
    assert_eq!(dex.exchange_state(NATIVE, BRIDGED), (1100, 1819, 1100 * 1819, 1000));
    assert_eq!(dex.balance_of_account(1, NATIVE), 1_000_000 - 1000 - 100);
    assert_eq!(dex.balance_of_account(1, BRIDGED), 2_000_000 - 2000 + 181);
}

#[test]
fn swap_charges_the_fee_on_the_input() {
    let mut dex = pool_dex(None);
    // fee = 10000 * 3 / 1000 = 30, net = 9970,
    // out = 9970 * 2000 / (1000 + 9970) = 1817,
    // the whole input joins the pool since no treasury takes a cut
    let event = dex.swap_to_exact(1, NATIVE, 10_000, BRIDGED, 0, 1).unwrap();
    assert_eq!(event, Event::Exchanged(1, NATIVE, 10_000, BRIDGED, 1817, None));
    assert_eq!(dex.exchange_state(NATIVE, BRIDGED), (11_000, 183, 11_000 * 183, 1000));
}

#[test]
fn swap_splits_the_fee_with_the_treasury() {
    let treasury = DexTreasury::new(99, 1, 2);
    let mut dex = pool_dex(Some(treasury));
    // fee = 30, treasury cut = 30 * 1 / 2 = 15, pool keeps the rest:
    // the input side rises by 10000 - 15
    let event = dex.swap_to_exact(1, NATIVE, 10_000, BRIDGED, 0, 1).unwrap();
    assert_eq!(event, Event::Exchanged(1, NATIVE, 10_000, BRIDGED, 1817, Some(15)));
    assert_eq!(dex.exchange_state(NATIVE, BRIDGED), (10_985, 183, 10_985 * 183, 1000));
    assert_eq!(dex.balance_of_account(99, NATIVE), 15);
}

#[test]
fn swap_keeps_the_invariant_from_decreasing() {
    let mut dex = pool_dex(None);
    let (.., invariant_before, _) = {
        let (a, b, inv, ts) = dex.exchange_state(NATIVE, BRIDGED);
        (a, b, inv, ts)
    };
    dex.swap_to_exact(1, NATIVE, 777, BRIDGED, 0, 1).unwrap();
    let (_, _, invariant_after, _) = dex.exchange_state(NATIVE, BRIDGED);
    assert!(invariant_after >= invariant_before);
    dex.swap_to_exact(1, BRIDGED, 123, NATIVE, 0, 1).unwrap();
    let (_, _, invariant_third, _) = dex.exchange_state(NATIVE, BRIDGED);
    assert!(invariant_third >= invariant_after);
}

#[test]
fn swap_works_in_the_reverse_direction() {
    let mut dex = pool_dex(None);
    // swapped direction: in = bridged against reserve 2000, out = native,
    // fee = 0, out = 200 * 1000 / (2000 + 200) = 90
    let event = dex.swap_to_exact(1, BRIDGED, 200, NATIVE, 90, 1).unwrap();
    assert_eq!(event, Event::Exchanged(1, BRIDGED, 200, NATIVE, 90, None));
    assert_eq!(dex.exchange_state(NATIVE, BRIDGED), (910, 2200, 910 * 2200, 1000));
}

#[test]
fn swap_slippage_bound_rejects_and_mutates_nothing() {
    let mut dex = pool_dex(None);
    let state_before = dex.exchange_state(NATIVE, BRIDGED);
    let native_before = dex.balance_of_account(1, NATIVE);
    let bridged_before = dex.balance_of_account(1, BRIDGED);
    // true output is 181; demanding 182 must fail on the high side
    assert_eq!(
        dex.swap_to_exact(1, NATIVE, 100, BRIDGED, 182, 1),
        Err(Error::SecondAssetAmountBelowExpectation)
    );
    // true output is 90; demanding 91 must fail on the low side
    assert_eq!(
        dex.swap_to_exact(1, BRIDGED, 200, NATIVE, 91, 1),
        Err(Error::FirstAssetAmountBelowExpectation)
    );
    assert_eq!(dex.exchange_state(NATIVE, BRIDGED), state_before);
    assert_eq!(dex.balance_of_account(1, NATIVE), native_before);
    assert_eq!(dex.balance_of_account(1, BRIDGED), bridged_before);
}

#[test]
fn swap_rejects_degenerate_and_missing_pairs() {
    let mut dex = pool_dex(None);
    assert_eq!(
        dex.swap_to_exact(1, NATIVE, 10, NATIVE, 0, 1),
        Err(Error::InvalidExchange)
    );
    assert_eq!(
        dex.swap_to_exact(1, NATIVE, 10, Asset::ParachainAsset(9), 0, 1),
        Err(Error::ExchangeNotExists)
    );
}

#[test]
fn swap_rejects_insufficient_input_balance() {
    let mut dex = pool_dex(None);
    dex.mint_asset(3, NATIVE, 5);
    assert_eq!(
        dex.swap_to_exact(3, NATIVE, 10, BRIDGED, 0, 3),
        Err(Error::InsufficientKsmBalance)
    );
    assert_eq!(
        dex.swap_to_exact(3, BRIDGED, 10, NATIVE, 0, 3),
        Err(Error::InsufficientOtherAssetBalance)
    );
    assert_eq!(dex.balance_of_account(3, NATIVE), 5);
}
