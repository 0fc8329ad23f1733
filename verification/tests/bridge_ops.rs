use subdex::asset::Asset;
use subdex::bridge::{
    handle_downward_transfer, transfer_asset_balance_to_parachain_chain,
    transfer_balance_to_parachain_chain, transfer_balance_to_relay_chain, Bridge, BridgeEvent,
    XCMPMessage,
};
use subdex::dex::Dex;
use subdex::errors::Error;

const NATIVE: Asset = Asset::MainNetworkCurrency;

#[test]
fn incoming_token_transfer_mints_native_currency() {
    let mut bridge = Bridge::new(0);
    let mut dex = Dex::new(1, 1, None);
    let msg: XCMPMessage<u64, u128, u64> = XCMPMessage::TransferToken(3, 500);
    let event = bridge.handle_xcmp_message(&mut dex, 9, &msg).unwrap();
    assert_eq!(event, BridgeEvent::TransferredTokensViaXCMP(9, 3, 500));
    assert_eq!(dex.balance_of_account(3, NATIVE), 500);
}

#[test]
fn incoming_asset_registers_a_fresh_id_once() {
    let mut bridge = Bridge::new(0);
    let mut dex = Dex::new(1, 1, None);
    let msg: XCMPMessage<u64, u128, u64> = XCMPMessage::TransferAsset(3, 500, 77);
    let event = bridge.handle_xcmp_message(&mut dex, 9, &msg).unwrap();
    assert_eq!(event, BridgeEvent::TransferredAssetViaXCMP(9, 77, 3, 0, 500));
    assert_eq!(dex.balance_of_account(3, Asset::ParachainAsset(0)), 500);
    assert_eq!(bridge.ensure_asset_id_exists(9, 77), Ok(0));

    // a second transfer of the same foreign asset reuses the id
    let again: XCMPMessage<u64, u128, u64> = XCMPMessage::TransferAsset(3, 100, 77);
    let event = bridge.handle_xcmp_message(&mut dex, 9, &again).unwrap();
    assert_eq!(event, BridgeEvent::TransferredAssetViaXCMP(9, 77, 3, 0, 100));
    assert_eq!(dex.balance_of_account(3, Asset::ParachainAsset(0)), 600);

    // a different foreign asset gets the next id
    let other: XCMPMessage<u64, u128, u64> = XCMPMessage::TransferAsset(4, 50, 78);
    let event = bridge.handle_xcmp_message(&mut dex, 9, &other).unwrap();
    assert_eq!(event, BridgeEvent::TransferredAssetViaXCMP(9, 78, 4, 1, 50));
}

#[test]
fn unknown_foreign_asset_id_is_reported() {
    let bridge = Bridge::new(0);
    assert_eq!(bridge.ensure_asset_id_exists(9, 77), Err(Error::AssetIdDoesNotExist));
}

#[test]
fn downward_transfer_mints_native_currency() {
    let mut dex = Dex::new(1, 1, None);
    let event = handle_downward_transfer(&mut dex, 8, 1234).unwrap();
    assert_eq!(event, BridgeEvent::TransferredTokensFromRelayChain(8, 1234));
    assert_eq!(dex.balance_of_account(8, NATIVE), 1234);
}

#[test]
fn incoming_transfer_rejects_a_holding_overflow() {
    let mut dex = Dex::new(1, 1, None);
    dex.mint_asset(8, NATIVE, u128::MAX);
    assert_eq!(handle_downward_transfer(&mut dex, 8, 1), Err(Error::OverflowOccured));
    assert_eq!(dex.balance_of_account(8, NATIVE), u128::MAX);
}

#[test]
fn outbound_relay_transfer_slashes_the_sender() {
    let mut dex = Dex::new(1, 1, None);
    dex.mint_asset(2, NATIVE, 100);
    let event = transfer_balance_to_relay_chain(&mut dex, 2, 55, 40).unwrap();
    assert_eq!(event, BridgeEvent::TransferredTokensToRelayChain(55, 40));
    assert_eq!(dex.balance_of_account(2, NATIVE), 60);
    assert_eq!(
        transfer_balance_to_relay_chain(&mut dex, 2, 55, 61),
        Err(Error::InsufficientKsmBalance)
    );
    assert_eq!(dex.balance_of_account(2, NATIVE), 60);
}

#[test]
fn outbound_parachain_transfer_builds_the_message() {
    let mut dex = Dex::new(1, 1, None);
    dex.mint_asset(2, NATIVE, 100);
    let msg = transfer_balance_to_parachain_chain(&mut dex, 2, 7, 55, 30).unwrap();
    assert_eq!(msg, XCMPMessage::TransferToken(55, 30));
    assert_eq!(dex.balance_of_account(2, NATIVE), 70);
}

#[test]
fn outbound_asset_transfer_uses_the_registered_id() {
    let mut bridge = Bridge::new(0);
    let mut dex = Dex::new(1, 1, None);
    let inbound: XCMPMessage<u64, u128, u64> = XCMPMessage::TransferAsset(2, 500, 77);
    bridge.handle_xcmp_message(&mut dex, 9, &inbound).unwrap();

    let msg =
        transfer_asset_balance_to_parachain_chain(&bridge, &mut dex, 2, 9, 55, 77, 200).unwrap();
    assert_eq!(msg, XCMPMessage::TransferAsset(55, 200, 77));
    assert_eq!(dex.balance_of_account(2, Asset::ParachainAsset(0)), 300);

    assert_eq!(
        transfer_asset_balance_to_parachain_chain(&bridge, &mut dex, 2, 9, 55, 78, 1),
        Err(Error::AssetIdDoesNotExist)
    );
    assert_eq!(
        transfer_asset_balance_to_parachain_chain(&bridge, &mut dex, 2, 9, 55, 77, 301),
        Err(Error::InsufficientOtherAssetBalance)
    );
}
