use vstd::prelude::*;

use crate::asset::Asset;
use crate::dex::Dex;
use crate::errors::Error;

verus! {

/// A transfer order carried between chains: either an amount of the main
/// network currency, or an amount of a sender-side asset id.
#[derive(Clone, Copy, PartialEq, Eq, Structural, Debug)]
pub enum XCMPMessage<XAccountId, XBalance, XAssetIdOf> {
    /// Transfer tokens to the given account from the sending chain.
    TransferToken(XAccountId, XBalance),
    /// Transfer the sending chain's asset to the given account.
    TransferAsset(XAccountId, XBalance, XAssetIdOf),
}

/// A domain event recorded by the bridging layer.
#[derive(Clone, Copy, PartialEq, Eq, Structural, Debug)]
pub enum BridgeEvent {
    /// Main currency sent to an account on the relay chain.
    TransferredTokensToRelayChain(u64, u128),
    /// Main currency received from the relay chain.
    TransferredTokensFromRelayChain(u64, u128),
    /// Main currency received from another chain: source chain, account,
    /// amount.
    TransferredTokensViaXCMP(u32, u64, u128),
    /// A bridged asset received from another chain: source chain, the
    /// sender's asset id, account, our asset id, amount.
    TransferredAssetViaXCMP(u32, u64, u64, u64, u128),
}

/// One registered mapping from a (source chain, source asset id) pair to
/// this chain's own asset id.
#[derive(Clone, Copy, PartialEq, Eq, Structural, Debug)]
pub struct AssetMapRow {
    pub para_id: u32,
    pub para_asset_id: u64,
    pub asset_id: u64,
}

/// No two rows name the same (source chain, source asset id) pair.
pub open spec fn distinct_mapping_keys(rows: Seq<AssetMapRow>) -> bool {
    forall|i: int, j: int|
        0 <= i < j < rows.len() ==> !(rows[i].para_id == rows[j].para_id && rows[i].para_asset_id
            == rows[j].para_asset_id)
}

/// The asset id registered for a pair, if any.
pub open spec fn mapping_of_seq(rows: Seq<AssetMapRow>, para_id: u32, para_asset_id: u64) -> Option<
    u64,
>
    decreases rows.len(),
{
    if rows.len() == 0 {
        Option::None
    } else if rows[0].para_id == para_id && rows[0].para_asset_id == para_asset_id {
        Option::Some(rows[0].asset_id)
    } else {
        mapping_of_seq(rows.drop_first(), para_id, para_asset_id)
    }
}

pub proof fn lemma_mapping_at_index(rows: Seq<AssetMapRow>, i: int)
    requires
        distinct_mapping_keys(rows),
        0 <= i < rows.len(),
    ensures
        mapping_of_seq(rows, rows[i].para_id, rows[i].para_asset_id) == Option::Some(
            rows[i].asset_id,
        ),
    decreases rows.len(),
{
    if i > 0 {
        assert(rows.drop_first()[i - 1] == rows[i]);
        lemma_mapping_at_index(rows.drop_first(), i - 1);
    }
}

pub proof fn lemma_mapping_absent(rows: Seq<AssetMapRow>, para_id: u32, para_asset_id: u64)
    requires
        forall|i: int|
            0 <= i < rows.len() ==> !(rows[i].para_id == para_id && rows[i].para_asset_id
                == para_asset_id),
    ensures
        mapping_of_seq(rows, para_id, para_asset_id) is None,
    decreases rows.len(),
{
    if rows.len() > 0 {
        lemma_mapping_absent(rows.drop_first(), para_id, para_asset_id)
    }
}

/// Appending a row leaves every other pair's mapping unchanged.
pub proof fn lemma_mapping_push_other(
    rows: Seq<AssetMapRow>,
    row: AssetMapRow,
    para_id: u32,
    para_asset_id: u64,
)
    requires
        !(para_id == row.para_id && para_asset_id == row.para_asset_id),
    ensures
        mapping_of_seq(rows.push(row), para_id, para_asset_id) == mapping_of_seq(
            rows,
            para_id,
            para_asset_id,
        ),
    decreases rows.len(),
{
    if rows.len() == 0 {
        assert(rows.push(row)[0] == row);
        assert(rows.push(row).drop_first() =~= rows);
    } else {
        assert(rows.push(row)[0] == rows[0]);
        assert(rows.push(row).drop_first() =~= rows.drop_first().push(row));
        lemma_mapping_push_other(rows.drop_first(), row, para_id, para_asset_id);
    }
}

/// The bridging layer's own state: the registry of foreign asset ids and
/// the next id to hand out for a newly seen foreign asset.
pub struct Bridge {
    pub asset_id_by_para_asset_id: Vec<AssetMapRow>,
    pub next_asset_id: u64,
}

impl Bridge {
    /// Well-formedness: one mapping per foreign pair, and every id handed
    /// out so far lies below the next one.
    pub open spec fn wf(self) -> bool {
        &&& distinct_mapping_keys(self.asset_id_by_para_asset_id@)
        &&& (forall|i: int|
            0 <= i < self.asset_id_by_para_asset_id@.len()
                ==> #[trigger] self.asset_id_by_para_asset_id@[i].asset_id < self.next_asset_id)
    }

    /// The asset id registered for a foreign pair, if any.
    pub open spec fn mapping_of(self, para_id: u32, para_asset_id: u64) -> Option<u64> {
        mapping_of_seq(self.asset_id_by_para_asset_id@, para_id, para_asset_id)
    }

    /// A fresh bridge registry that will hand out ids from
    /// `next_asset_id` upwards.
    pub fn new(next_asset_id: u64) -> (r: Bridge)
        ensures
            r.wf(),
            r.next_asset_id == next_asset_id,
            forall|p: u32, a: u64| r.mapping_of(p, a) is None,
    {
        let r = Bridge { asset_id_by_para_asset_id: Vec::new(), next_asset_id };
        proof {
            assert forall|p: u32, a: u64| r.mapping_of(p, a) is None by {
                lemma_mapping_absent(r.asset_id_by_para_asset_id@, p, a);
            }
        }
        r
    }

    /// The registered id for a foreign pair, or the error naming an
    /// unknown pair.
    pub fn ensure_asset_id_exists(&self, para_id: u32, para_asset_id: u64) -> (r: Result<
        u64,
        Error,
    >)
        requires
            self.wf(),
        ensures
            r is Ok <==> self.mapping_of(para_id, para_asset_id) is Some,
            r matches Ok(id) ==> self.mapping_of(para_id, para_asset_id) == Option::Some(id),
            r is Err ==> r == Err::<u64, Error>(Error::AssetIdDoesNotExist),
    {
        let n = self.asset_id_by_para_asset_id.len();
        let mut i: usize = 0;
        while i < n
            invariant
                i <= n,
                n == self.asset_id_by_para_asset_id@.len(),
                self.wf(),
                forall|k: int|
                    0 <= k < i ==> !(self.asset_id_by_para_asset_id@[k].para_id == para_id
                        && self.asset_id_by_para_asset_id@[k].para_asset_id == para_asset_id),
            decreases n - i,
        {
            if self.asset_id_by_para_asset_id[i].para_id == para_id
                && self.asset_id_by_para_asset_id[i].para_asset_id == para_asset_id {
                proof {
                    lemma_mapping_at_index(self.asset_id_by_para_asset_id@, i as int);
                }
                return Ok(self.asset_id_by_para_asset_id[i].asset_id);
            }
            i += 1;
        }
        proof {
            lemma_mapping_absent(self.asset_id_by_para_asset_id@, para_id, para_asset_id);
        }
        Err(Error::AssetIdDoesNotExist)
    }

    /// Applies one inbound transfer from another chain: main currency is
    /// credited directly; a foreign asset is credited under its
    /// registered id, with a fresh id registered on first sight. Fails,
    /// changing neither store, when the resulting holding or the id
    /// counter would leave its type.
    pub fn handle_xcmp_message(
        &mut self,
        dex: &mut Dex,
        src: u32,
        msg: &XCMPMessage<u64, u128, u64>,
    ) -> (r: Result<BridgeEvent, Error>)
        requires
            old(self).wf(),
            old(dex).wf(),
        ensures
            final(self).wf(),
            final(dex).wf(),
            final(dex).exchanges@ == old(dex).exchanges@,
            final(dex).same_config(*old(dex)),
            r is Err ==> r == Err::<BridgeEvent, Error>(Error::OverflowOccured) && *final(self)
                == *old(self) && final(dex).same_state(*old(dex)),
            (match *msg {
                XCMPMessage::TransferToken(dest, amount) => {
                    &&& *final(self) == *old(self)
                    &&& (r is Ok <==> old(dex).balance_of(dest, Asset::MainNetworkCurrency)
                        + amount <= u128::MAX)
                    &&& (r is Ok ==> r == Ok::<BridgeEvent, Error>(
                        BridgeEvent::TransferredTokensViaXCMP(src, dest, amount),
                    ) && final(dex).balance_of(dest, Asset::MainNetworkCurrency) == old(dex).balance_of(dest, Asset::MainNetworkCurrency) + amount && (forall|
                        acc: u64,
                        ast: Asset,
                    |
                        !(acc == dest && ast == Asset::MainNetworkCurrency) ==> final(dex).balance_of(acc, ast) == old(dex).balance_of(acc, ast)))
                },
                XCMPMessage::TransferAsset(dest, amount, para_asset_id) => {
                    let assigned = match old(self).mapping_of(src, para_asset_id) {
                        Option::Some(id) => id,
                        Option::None => old(self).next_asset_id,
                    };
                    &&& (r is Ok <==> (old(self).mapping_of(src, para_asset_id) is None
                        ==> old(self).next_asset_id < u64::MAX) && old(dex).balance_of(
                        dest,
                        Asset::ParachainAsset(assigned),
                    ) + amount <= u128::MAX)
                    &&& (r is Ok ==> {
                        &&& r == Ok::<BridgeEvent, Error>(
                            BridgeEvent::TransferredAssetViaXCMP(
                                src,
                                para_asset_id,
                                dest,
                                assigned,
                                amount,
                            ),
                        )
                        &&& final(self).mapping_of(src, para_asset_id) == Option::Some(assigned)
                        &&& (forall|p: u32, a: u64|
                            !(p == src && a == para_asset_id) ==> final(self).mapping_of(p, a)
                                == old(self).mapping_of(p, a))
                        &&& final(dex).balance_of(dest, Asset::ParachainAsset(assigned)) == old(dex).balance_of(dest, Asset::ParachainAsset(assigned)) + amount
                        &&& (forall|acc: u64, ast: Asset|
                            !(acc == dest && ast == Asset::ParachainAsset(assigned)) ==> final(dex).balance_of(acc, ast) == old(dex).balance_of(acc, ast))
                    })
                },
            }),
    {
        match msg {
            XCMPMessage::TransferToken(dest, amount) => {
                if let Err(e) = dex.ensure_can_hold_balance(
                    *dest,
                    Asset::MainNetworkCurrency,
                    *amount,
                ) {
                    return Err(e);
                }
                dex.mint_asset(*dest, Asset::MainNetworkCurrency, *amount);
                Ok(BridgeEvent::TransferredTokensViaXCMP(src, *dest, *amount))
            },
            XCMPMessage::TransferAsset(dest, amount, para_asset_id) => {
                match self.ensure_asset_id_exists(src, *para_asset_id) {
                    Ok(asset_id) => {
                        if let Err(e) = dex.ensure_can_hold_balance(
                            *dest,
                            Asset::ParachainAsset(asset_id),
                            *amount,
                        ) {
                            return Err(e);
                        }
                        dex.mint_asset(*dest, Asset::ParachainAsset(asset_id), *amount);
                        Ok(
                            BridgeEvent::TransferredAssetViaXCMP(
                                src,
                                *para_asset_id,
                                *dest,
                                asset_id,
                                *amount,
                            ),
                        )
                    },
                    Err(_) => {
                        let asset_id = self.next_asset_id;
                        if asset_id == u64::MAX {
                            return Err(Error::OverflowOccured);
                        }
                        if let Err(e) = dex.ensure_can_hold_balance(
                            *dest,
                            Asset::ParachainAsset(asset_id),
                            *amount,
                        ) {
                            return Err(e);
                        }
                        let ghost rows0 = self.asset_id_by_para_asset_id@;
                        let row = AssetMapRow {
                            para_id: src,
                            para_asset_id: *para_asset_id,
                            asset_id,
                        };
                        self.asset_id_by_para_asset_id.push(row);
                        self.next_asset_id = asset_id + 1;
                        proof {
                            let rows1 = rows0.push(row);
                            assert(self.asset_id_by_para_asset_id@ =~= rows1);
                            assert(distinct_mapping_keys(rows1)) by {
                                assert forall|p: int, q: int|
                                    0 <= p < q < rows1.len() implies !(rows1[p].para_id
                                    == rows1[q].para_id && rows1[p].para_asset_id
                                    == rows1[q].para_asset_id) by {
                                    if q < rows1.len() - 1 {
                                        assert(rows1[p] == rows0[p]);
                                        assert(rows1[q] == rows0[q]);
                                    } else {
                                        assert(rows1[p] == rows0[p]);
                                        assert(rows1[q] == row);
                                        if rows0[p].para_id == src && rows0[p].para_asset_id
                                            == *para_asset_id {
                                            lemma_mapping_at_index(rows0, p);
                                        }
                                    }
                                }
                            }
                            lemma_mapping_at_index(rows1, rows1.len() - 1);
                            assert forall|p: u32, a: u64|
                                !(p == src && a == *para_asset_id) implies mapping_of_seq(
                                rows1,
                                p,
                                a,
                            ) == mapping_of_seq(rows0, p, a) by {
                                lemma_mapping_push_other(rows0, row, p, a);
                            }
                        }
                        dex.mint_asset(*dest, Asset::ParachainAsset(asset_id), *amount);
                        Ok(
                            BridgeEvent::TransferredAssetViaXCMP(
                                src,
                                *para_asset_id,
                                *dest,
                                asset_id,
                                *amount,
                            ),
                        )
                    },
                }
            },
        }
    }
}

/// Applies one inbound transfer of main currency from the relay chain.
/// Fails, changing nothing, when the resulting holding would overflow.
pub fn handle_downward_transfer(dex: &mut Dex, dest: u64, amount: u128) -> (r: Result<
    BridgeEvent,
    Error,
>)
    requires
        old(dex).wf(),
    ensures
        final(dex).wf(),
        final(dex).exchanges@ == old(dex).exchanges@,
        final(dex).same_config(*old(dex)),
        r is Ok <==> old(dex).balance_of(dest, Asset::MainNetworkCurrency) + amount <= u128::MAX,
        r is Err ==> r == Err::<BridgeEvent, Error>(Error::OverflowOccured) && final(dex).same_state(*old(dex)),
        r is Ok ==> r == Ok::<BridgeEvent, Error>(
            BridgeEvent::TransferredTokensFromRelayChain(dest, amount),
        ) && final(dex).balance_of(dest, Asset::MainNetworkCurrency) == old(dex).balance_of(
            dest,
            Asset::MainNetworkCurrency,
        ) + amount && (forall|acc: u64, ast: Asset|
            !(acc == dest && ast == Asset::MainNetworkCurrency) ==> final(dex).balance_of(
                acc,
                ast,
            ) == old(dex).balance_of(acc, ast)),
{
    if let Err(e) = dex.ensure_can_hold_balance(dest, Asset::MainNetworkCurrency, amount) {
        return Err(e);
    }
    dex.mint_asset(dest, Asset::MainNetworkCurrency, amount);
    Ok(BridgeEvent::TransferredTokensFromRelayChain(dest, amount))
}

/// Debits main currency from the sender for a transfer to the relay
/// chain; the recorded event carries the order the messaging layer must
/// send upward.
pub fn transfer_balance_to_relay_chain(dex: &mut Dex, sender: u64, dest: u64, amount: u128) -> (r:
    Result<BridgeEvent, Error>)
    requires
        old(dex).wf(),
    ensures
        final(dex).wf(),
        final(dex).exchanges@ == old(dex).exchanges@,
        final(dex).same_config(*old(dex)),
        r is Ok <==> old(dex).balance_of(sender, Asset::MainNetworkCurrency) >= amount,
        r is Err ==> r == Err::<BridgeEvent, Error>(Error::InsufficientKsmBalance) && final(dex).same_state(*old(dex)),
        r is Ok ==> r == Ok::<BridgeEvent, Error>(
            BridgeEvent::TransferredTokensToRelayChain(dest, amount),
        ) && final(dex).balance_of(sender, Asset::MainNetworkCurrency) == old(dex).balance_of(
            sender,
            Asset::MainNetworkCurrency,
        ) - amount && (forall|acc: u64, ast: Asset|
            !(acc == sender && ast == Asset::MainNetworkCurrency) ==> final(dex).balance_of(
                acc,
                ast,
            ) == old(dex).balance_of(acc, ast)),
{
    if let Err(e) = dex.ensure_sufficient_balance(sender, Asset::MainNetworkCurrency, amount) {
        return Err(e);
    }
    dex.slash_asset(sender, Asset::MainNetworkCurrency, amount);
    Ok(BridgeEvent::TransferredTokensToRelayChain(dest, amount))
}

/// Debits main currency from the sender for a transfer to another chain;
/// returns the message the messaging layer must send there.
pub fn transfer_balance_to_parachain_chain(
    dex: &mut Dex,
    sender: u64,
    para_id: u32,
    dest: u64,
    amount: u128,
) -> (r: Result<XCMPMessage<u64, u128, u64>, Error>)
    requires
        old(dex).wf(),
    ensures
        final(dex).wf(),
        final(dex).exchanges@ == old(dex).exchanges@,
        final(dex).same_config(*old(dex)),
        r is Ok <==> old(dex).balance_of(sender, Asset::MainNetworkCurrency) >= amount,
        r is Err ==> r == Err::<XCMPMessage<u64, u128, u64>, Error>(
            Error::InsufficientKsmBalance,
        ) && final(dex).same_state(*old(dex)),
        r is Ok ==> r == Ok::<XCMPMessage<u64, u128, u64>, Error>(
            XCMPMessage::TransferToken(dest, amount),
        ) && final(dex).balance_of(sender, Asset::MainNetworkCurrency) == old(dex).balance_of(
            sender,
            Asset::MainNetworkCurrency,
        ) - amount && (forall|acc: u64, ast: Asset|
            !(acc == sender && ast == Asset::MainNetworkCurrency) ==> final(dex).balance_of(
                acc,
                ast,
            ) == old(dex).balance_of(acc, ast)),
{
    if let Err(e) = dex.ensure_sufficient_balance(sender, Asset::MainNetworkCurrency, amount) {
        return Err(e);
    }
    dex.slash_asset(sender, Asset::MainNetworkCurrency, amount);
    Ok(XCMPMessage::TransferToken(dest, amount))
}

/// Debits a bridged asset from the sender for a transfer back to the
/// chain it came from; returns the message the messaging layer must send
/// there. The asset must be registered for that chain.
pub fn transfer_asset_balance_to_parachain_chain(
    bridge: &Bridge,
    dex: &mut Dex,
    sender: u64,
    para_id: u32,
    dest: u64,
    para_asset_id: u64,
    amount: u128,
) -> (r: Result<XCMPMessage<u64, u128, u64>, Error>)
    requires
        bridge.wf(),
        old(dex).wf(),
    ensures
        final(dex).wf(),
        final(dex).exchanges@ == old(dex).exchanges@,
        final(dex).same_config(*old(dex)),
        ({
            let mapped = bridge.mapping_of(para_id, para_asset_id);
            &&& (r is Ok <==> mapped is Some && old(dex).balance_of(
                sender,
                Asset::ParachainAsset(mapped->Some_0),
            ) >= amount)
            &&& (mapped is None ==> r == Err::<XCMPMessage<u64, u128, u64>, Error>(
                Error::AssetIdDoesNotExist,
            ))
            &&& (r is Err ==> final(dex).same_state(*old(dex)))
            &&& (mapped matches Option::Some(id) && old(dex).balance_of(
                sender,
                Asset::ParachainAsset(id),
            ) < amount ==> r == Err::<XCMPMessage<u64, u128, u64>, Error>(
                Error::InsufficientOtherAssetBalance,
            ))
            &&& (r is Ok ==> r == Ok::<XCMPMessage<u64, u128, u64>, Error>(
                XCMPMessage::TransferAsset(dest, amount, para_asset_id),
            ) && final(dex).balance_of(sender, Asset::ParachainAsset(mapped->Some_0)) == old(dex).balance_of(sender, Asset::ParachainAsset(mapped->Some_0)) - amount && (forall|
                acc: u64,
                ast: Asset,
            |
                !(acc == sender && ast == Asset::ParachainAsset(mapped->Some_0)) ==> final(dex).balance_of(acc, ast) == old(dex).balance_of(acc, ast)))
        }),
{
    let asset_id = match bridge.ensure_asset_id_exists(para_id, para_asset_id) {
        Err(e) => {
            return Err(e);
        },
        Ok(id) => id,
    };
    if let Err(e) = dex.ensure_sufficient_balance(sender, Asset::ParachainAsset(asset_id), amount) {
        return Err(e);
    }
    dex.slash_asset(sender, Asset::ParachainAsset(asset_id), amount);
    Ok(XCMPMessage::TransferAsset(dest, amount, para_asset_id))
}

} // verus!
