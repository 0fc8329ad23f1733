use subdex::asset::Asset;
use subdex::dex::Dex;
use subdex::errors::Error;

#[test]
fn canonical_order_native_first() {
    let a = Asset::MainNetworkCurrency;
    let b = Asset::ParachainAsset(4);
    assert_eq!(Dex::adjust_assets_order(a, b), (a, b, false));
    assert_eq!(Dex::adjust_assets_order(b, a), (a, b, true));
}

#[test]
fn canonical_order_bridged_by_id() {
    let a = Asset::ParachainAsset(2);
    let b = Asset::ParachainAsset(9);
    assert_eq!(Dex::adjust_assets_order(a, b), (a, b, false));
    assert_eq!(Dex::adjust_assets_order(b, a), (a, b, true));
}

#[test]
fn canonical_order_both_directions_agree() {
    let pairs = [
        (Asset::MainNetworkCurrency, Asset::ParachainAsset(0)),
        (Asset::ParachainAsset(1), Asset::ParachainAsset(2)),
        (Asset::ParachainAsset(7), Asset::MainNetworkCurrency),
    ];
    for (a, b) in pairs {
        let (low1, high1, swapped1) = Dex::adjust_assets_order(a, b);
        let (low2, high2, swapped2) = Dex::adjust_assets_order(b, a);
        assert_eq!(low1, low2);
        assert_eq!(high1, high2);
        assert_ne!(swapped1, swapped2);
    }
}

#[test]
fn canonical_amounts_follow_assets() {
    let native = Asset::MainNetworkCurrency;
    let bridged = Asset::ParachainAsset(3);
    assert_eq!(
        Dex::adjust_assets_amount_order(bridged, 70, native, 20),
        (native, 20, bridged, 70)
    );
    assert_eq!(
        Dex::adjust_assets_amount_order(native, 20, bridged, 70),
        (native, 20, bridged, 70)
    );
}

#[test]
fn degenerate_pair_is_rejected() {
    assert_eq!(
        Dex::ensure_valid_exchange(Asset::MainNetworkCurrency, Asset::MainNetworkCurrency),
        Err(Error::InvalidExchange)
    );
    assert_eq!(
        Dex::ensure_valid_exchange(Asset::ParachainAsset(5), Asset::ParachainAsset(5)),
        Err(Error::InvalidExchange)
    );
    assert_eq!(
        Dex::ensure_valid_exchange(Asset::ParachainAsset(5), Asset::ParachainAsset(6)),
        Ok(())
    );
}

#[test]
fn divest_expectations_pick_first_failing_side() {
    assert_eq!(Dex::ensure_divest_expectations(10, 10, 10, 10), Ok(()));
    assert_eq!(
        Dex::ensure_divest_expectations(9, 10, 10, 10),
        Err(Error::FirstAssetAmountBelowExpectation)
    );
    assert_eq!(
        Dex::ensure_divest_expectations(10, 9, 10, 10),
        Err(Error::SecondAssetAmountBelowExpectation)
    );
}
