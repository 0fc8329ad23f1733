use vstd::prelude::*;

use crate::asset::{
    asset_eq, asset_lt_exec, canonical_high, canonical_low, lemma_canonical_pair_symmetric,
    order_swapped, valid_pair, Asset,
};
use crate::errors::Error;
use crate::exchange::{
    spec_amount_out, spec_new_reserve_in, spec_new_reserve_out, spec_treasury_fee, swap_feasible,
    Exchange,
};
use crate::math::{divest_cost, invest_cost};
use crate::ledger::{
    balance_of_seq, distinct_balance_keys, lemma_balance_absent, lemma_balance_at_index,
    lemma_balance_push_other, lemma_balance_update_other, BalanceRow,
};
use crate::registry::{
    distinct_pairs, lemma_pool_absent, lemma_pool_at_index, lemma_pool_push_other,
    lemma_pool_update_other, pool_of_seq, PoolEntry,
};
use crate::treasury::DexTreasury;

verus! {

/// A domain event recorded by a successful operation: who acted, which
/// assets were touched, and the amounts moved. A swap also carries the
/// treasury's fee when a treasury is configured.
#[derive(Clone, Copy, PartialEq, Eq, Structural, Debug)]
pub enum Event {
    Exchanged(u64, Asset, u128, Asset, u128, Option<u128>),
    Invested(u64, Asset, Asset, u128),
    Divested(u64, Asset, Asset, u128),
}

/// Which insufficiency error a debit of `asset` reports.
pub open spec fn insufficiency_error(asset: Asset) -> Error {
    match asset {
        Asset::MainNetworkCurrency => Error::InsufficientKsmBalance,
        Asset::ParachainAsset(_) => Error::InsufficientOtherAssetBalance,
    }
}

/// The whole mutable state of the engine: the pool registry keyed by
/// canonical pairs, the per-account asset ledger, and the read-only fee
/// and treasury configuration fixed at genesis.
pub struct Dex {
    pub exchanges: Vec<PoolEntry>,
    pub balances: Vec<BalanceRow>,
    pub fee_rate_nominator: u128,
    pub fee_rate_denominator: u128,
    pub dex_treasury: Option<DexTreasury>,
}

impl Dex {
    /// Well-formedness, maintained by every operation: a sane fee rate, a
    /// sane treasury split, every registry slot keyed by a strictly
    /// ordered pair and holding a well-formed pool, and no duplicate keys
    /// anywhere.
    pub open spec fn wf(self) -> bool {
        &&& self.fee_rate_denominator > 0
        &&& self.fee_rate_nominator <= self.fee_rate_denominator
        &&& (self.dex_treasury matches Option::Some(t) ==> t.wf())
        &&& distinct_pairs(self.exchanges@)
        &&& (forall|i: int|
            0 <= i < self.exchanges@.len() ==> valid_pair(
                #[trigger] self.exchanges@[i].first_asset,
                self.exchanges@[i].second_asset,
            ) && self.exchanges@[i].exchange.wf())
        &&& distinct_balance_keys(self.balances@)
    }

    /// The holding of `account` in `asset`.
    pub open spec fn balance_of(self, account: u64, asset: Asset) -> u128 {
        balance_of_seq(self.balances@, account, asset)
    }

    /// The pool stored under a pair, if any slot carries it.
    pub open spec fn pool_of(self, first: Asset, second: Asset) -> Option<Exchange> {
        pool_of_seq(self.exchanges@, first, second)
    }

    /// Whether an active pool trades the pair.
    pub open spec fn pool_active(self, first: Asset, second: Asset) -> bool {
        match self.pool_of(first, second) {
            Option::Some(ex) => ex.is_active(),
            Option::None => false,
        }
    }

    /// Reserve of the first (low) asset of the pair, zero when no pool.
    pub open spec fn pool_reserve_low(self, first: Asset, second: Asset) -> u128 {
        match self.pool_of(first, second) {
            Option::Some(ex) => ex.first_asset_pool,
            Option::None => 0,
        }
    }

    /// Reserve of the second (high) asset of the pair, zero when no pool.
    pub open spec fn pool_reserve_high(self, first: Asset, second: Asset) -> u128 {
        match self.pool_of(first, second) {
            Option::Some(ex) => ex.second_asset_pool,
            Option::None => 0,
        }
    }

    /// Cached reserve product of the pair's pool, zero when no pool.
    pub open spec fn pool_invariant(self, first: Asset, second: Asset) -> u128 {
        match self.pool_of(first, second) {
            Option::Some(ex) => ex.invariant,
            Option::None => 0,
        }
    }

    /// Outstanding shares of the pair's pool, zero when no pool.
    pub open spec fn pool_total_shares(self, first: Asset, second: Asset) -> u128 {
        match self.pool_of(first, second) {
            Option::Some(ex) => ex.total_shares,
            Option::None => 0,
        }
    }

    /// Shares of the pair's pool owned by `account`, zero when no pool.
    pub open spec fn pool_shares_of(self, first: Asset, second: Asset, account: u64) -> u128 {
        match self.pool_of(first, second) {
            Option::Some(ex) => ex.shares_of(account),
            Option::None => 0,
        }
    }

    /// The fee and treasury configuration never changes after genesis.
    pub open spec fn same_config(self, other: Dex) -> bool {
        &&& self.fee_rate_nominator == other.fee_rate_nominator
        &&& self.fee_rate_denominator == other.fee_rate_denominator
        &&& self.dex_treasury == other.dex_treasury
    }

    /// Both stores hold exactly the same pools, balances and configuration.
    pub open spec fn same_state(self, other: Dex) -> bool {
        &&& self.exchanges@ == other.exchanges@
        &&& self.balances@ == other.balances@
        &&& self.same_config(other)
    }

    /// A fresh engine at genesis: no pools, no holdings, the given fee
    /// rate, and optionally a treasury.
    pub fn new(
        fee_rate_nominator: u128,
        fee_rate_denominator: u128,
        dex_treasury: Option<DexTreasury>,
    ) -> (r: Dex)
        requires
            fee_rate_denominator > 0,
            fee_rate_nominator <= fee_rate_denominator,
            dex_treasury matches Option::Some(t) ==> t.wf(),
        ensures
            r.wf(),
            r.fee_rate_nominator == fee_rate_nominator,
            r.fee_rate_denominator == fee_rate_denominator,
            r.dex_treasury == dex_treasury,
            forall|account: u64, asset: Asset| r.balance_of(account, asset) == 0,
            forall|first: Asset, second: Asset| r.pool_of(first, second) is None,
    {
        let r = Dex {
            exchanges: Vec::new(),
            balances: Vec::new(),
            fee_rate_nominator,
            fee_rate_denominator,
            dex_treasury,
        };
        proof {
            assert forall|account: u64, asset: Asset| r.balance_of(account, asset) == 0 by {
                lemma_balance_absent(r.balances@, account, asset);
            }
            assert forall|first: Asset, second: Asset| r.pool_of(first, second) is None by {
                lemma_pool_absent(r.exchanges@, first, second);
            }
        }
        r
    }

    /// The holding of `account` in `asset`, read from the ledger.
    pub fn balance_of_account(&self, account: u64, asset: Asset) -> (r: u128)
        requires
            self.wf(),
        ensures
            r == self.balance_of(account, asset),
    {
        let n = self.balances.len();
        let mut i: usize = 0;
        while i < n
            invariant
                i <= n,
                n == self.balances@.len(),
                self.wf(),
                forall|k: int|
                    0 <= k < i ==> !(self.balances@[k].account == account
                        && self.balances@[k].asset == asset),
            decreases n - i,
        {
            if self.balances[i].account == account && asset_eq(self.balances[i].asset, asset) {
                proof {
                    lemma_balance_at_index(self.balances@, i as int);
                }
                return self.balances[i].amount;
            }
            i += 1;
        }
        proof {
            lemma_balance_absent(self.balances@, account, asset);
        }
        0
    }

    /// Sets one ledger entry, creating the row when absent. Only that
    /// holding changes; pools and configuration are untouched.
    #[verifier::loop_isolation(false)]
    fn set_balance(&mut self, account: u64, asset: Asset, new_amount: u128)
        requires
            distinct_balance_keys(old(self).balances@),
        ensures
            distinct_balance_keys(final(self).balances@),
            final(self).balance_of(account, asset) == new_amount,
            forall|acc: u64, ast: Asset|
                !(acc == account && ast == asset) ==> final(self).balance_of(acc, ast) == old(self).balance_of(acc, ast),
            final(self).exchanges@ == old(self).exchanges@,
            final(self).same_config(*old(self)),
    {
        let ghost self0 = *self;
        let ghost rows0 = self.balances@;
        let n = self.balances.len();
        let mut i: usize = 0;
        while i < n
            invariant
                i <= n,
                n == rows0.len(),
                *self == self0,
                self0.balances@ == rows0,
                distinct_balance_keys(rows0),
                forall|k: int|
                    0 <= k < i ==> !(rows0[k].account == account && rows0[k].asset == asset),
            decreases n - i,
        {
            if self.balances[i].account == account && asset_eq(self.balances[i].asset, asset) {
                let row = BalanceRow { account, asset, amount: new_amount };
                let _old_row = self.balances.remove(i);
                self.balances.insert(i, row);
                proof {
                    assert(self.balances@ =~= rows0.update(i as int, row));
                    let rows1 = rows0.update(i as int, row);
                    assert(distinct_balance_keys(rows1)) by {
                        assert forall|p: int, q: int|
                            0 <= p < q < rows1.len() implies !(rows1[p].account
                            == rows1[q].account && rows1[p].asset == rows1[q].asset) by {
                            assert(rows1[p].account == rows0[p].account && rows1[p].asset
                                == rows0[p].asset);
                            assert(rows1[q].account == rows0[q].account && rows1[q].asset
                                == rows0[q].asset);
                        }
                    }
                    lemma_balance_at_index(rows1, i as int);
                    assert forall|acc: u64, ast: Asset|
                        !(acc == account && ast == asset) implies balance_of_seq(rows1, acc, ast)
                        == balance_of_seq(rows0, acc, ast) by {
                        lemma_balance_update_other(rows0, i as int, row, acc, ast);
                    }
                }
                return ;
            }
            i += 1;
        }
        let row = BalanceRow { account, asset, amount: new_amount };
        self.balances.push(row);
        proof {
            let rows1 = rows0.push(row);
            assert(self.balances@ =~= rows1);
            assert(distinct_balance_keys(rows1)) by {
                assert forall|p: int, q: int|
                    0 <= p < q < rows1.len() implies !(rows1[p].account == rows1[q].account
                    && rows1[p].asset == rows1[q].asset) by {
                    if q < rows1.len() - 1 {
                        assert(rows1[p] == rows0[p]);
                        assert(rows1[q] == rows0[q]);
                    } else {
                        assert(rows1[p] == rows0[p]);
                        assert(rows1[q] == row);
                    }
                }
            }
            lemma_balance_at_index(rows1, rows1.len() - 1);
            assert forall|acc: u64, ast: Asset|
                !(acc == account && ast == asset) implies balance_of_seq(rows1, acc, ast)
                == balance_of_seq(rows0, acc, ast) by {
                lemma_balance_push_other(rows0, row, acc, ast);
            }
        }
    }

    /// Credits `asset_amount` of `asset` to `to`. For the native currency
    /// this models the external currency module's mint; for a bridged
    /// asset it raises the ledger row, creating it on first credit. The
    /// caller must have ruled out overflow of the resulting holding.
    pub fn mint_asset(&mut self, to: u64, asset: Asset, asset_amount: u128)
        requires
            old(self).wf(),
            old(self).balance_of(to, asset) + asset_amount <= u128::MAX,
        ensures
            final(self).wf(),
            final(self).balance_of(to, asset) == old(self).balance_of(to, asset) + asset_amount,
            forall|acc: u64, ast: Asset|
                !(acc == to && ast == asset) ==> final(self).balance_of(acc, ast) == old(self).balance_of(acc, ast),
            final(self).exchanges@ == old(self).exchanges@,
            final(self).same_config(*old(self)),
    {
        let current = self.balance_of_account(to, asset);
        self.set_balance(to, asset, current + asset_amount);
    }

    /// Debits `asset_amount` of `asset` from `from`. For the native
    /// currency this models the external currency module's slash. The
    /// caller must have validated sufficiency first.
    pub fn slash_asset(&mut self, from: u64, asset: Asset, asset_amount: u128)
        requires
            old(self).wf(),
            asset_amount <= old(self).balance_of(from, asset),
        ensures
            final(self).wf(),
            final(self).balance_of(from, asset) == old(self).balance_of(from, asset)
                - asset_amount,
            forall|acc: u64, ast: Asset|
                !(acc == from && ast == asset) ==> final(self).balance_of(acc, ast) == old(self).balance_of(acc, ast),
            final(self).exchanges@ == old(self).exchanges@,
            final(self).same_config(*old(self)),
    {
        let current = self.balance_of_account(from, asset);
        self.set_balance(from, asset, current - asset_amount);
    }

    /// Credits both sides of a pair in one step.
    pub fn mint_assets(
        &mut self,
        to: u64,
        first_asset: Asset,
        first_asset_amount: u128,
        second_asset: Asset,
        second_asset_amount: u128,
    )
        requires
            old(self).wf(),
            first_asset != second_asset,
            old(self).balance_of(to, first_asset) + first_asset_amount <= u128::MAX,
            old(self).balance_of(to, second_asset) + second_asset_amount <= u128::MAX,
        ensures
            final(self).wf(),
            final(self).balance_of(to, first_asset) == old(self).balance_of(to, first_asset)
                + first_asset_amount,
            final(self).balance_of(to, second_asset) == old(self).balance_of(to, second_asset)
                + second_asset_amount,
            forall|acc: u64, ast: Asset|
                !(acc == to && (ast == first_asset || ast == second_asset)) ==> final(self).balance_of(acc, ast) == old(self).balance_of(acc, ast),
            final(self).exchanges@ == old(self).exchanges@,
            final(self).same_config(*old(self)),
    {
        self.mint_asset(to, first_asset, first_asset_amount);
        self.mint_asset(to, second_asset, second_asset_amount);
    }

    /// Debits both sides of a pair in one step.
    pub fn slash_assets(
        &mut self,
        from: u64,
        first_asset: Asset,
        first_asset_amount: u128,
        second_asset: Asset,
        second_asset_amount: u128,
    )
        requires
            old(self).wf(),
            first_asset != second_asset,
            first_asset_amount <= old(self).balance_of(from, first_asset),
            second_asset_amount <= old(self).balance_of(from, second_asset),
        ensures
            final(self).wf(),
            final(self).balance_of(from, first_asset) == old(self).balance_of(from, first_asset)
                - first_asset_amount,
            final(self).balance_of(from, second_asset) == old(self).balance_of(
                from,
                second_asset,
            ) - second_asset_amount,
            forall|acc: u64, ast: Asset|
                !(acc == from && (ast == first_asset || ast == second_asset)) ==> final(self).balance_of(acc, ast) == old(self).balance_of(acc, ast),
            final(self).exchanges@ == old(self).exchanges@,
            final(self).same_config(*old(self)),
    {
        self.slash_asset(from, first_asset, first_asset_amount);
        self.slash_asset(from, second_asset, second_asset_amount);
    }

    /// Read-only sufficiency check for one debit, reporting the native or
    /// bridged insufficiency error.
    pub fn ensure_sufficient_balance(&self, from: u64, asset: Asset, amount: u128) -> (r: Result<
        (),
        Error,
    >)
        requires
            self.wf(),
        ensures
            r is Ok <==> self.balance_of(from, asset) >= amount,
            r is Err ==> r == Err::<(), Error>(insufficiency_error(asset)),
    {
        let balance = self.balance_of_account(from, asset);
        if balance >= amount {
            Ok(())
        } else {
            match asset {
                Asset::MainNetworkCurrency => Err(Error::InsufficientKsmBalance),
                Asset::ParachainAsset(_) => Err(Error::InsufficientOtherAssetBalance),
            }
        }
    }

    /// Read-only sufficiency check for both debits of a pair, reporting
    /// the first failing side.
    pub fn ensure_sufficient_balances(
        &self,
        sender: u64,
        asset_in: Asset,
        asset_in_amount: u128,
        asset_out: Asset,
        asset_out_amount: u128,
    ) -> (r: Result<(), Error>)
        requires
            self.wf(),
        ensures
            r is Ok <==> self.balance_of(sender, asset_in) >= asset_in_amount && self.balance_of(
                sender,
                asset_out,
            ) >= asset_out_amount,
            self.balance_of(sender, asset_in) < asset_in_amount ==> r == Err::<(), Error>(
                insufficiency_error(asset_in),
            ),
            self.balance_of(sender, asset_in) >= asset_in_amount && self.balance_of(
                sender,
                asset_out,
            ) < asset_out_amount ==> r == Err::<(), Error>(insufficiency_error(asset_out)),
    {
        let r1 = self.ensure_sufficient_balance(sender, asset_in, asset_in_amount);
        if let Err(e) = r1 {
            return Err(e);
        }
        self.ensure_sufficient_balance(sender, asset_out, asset_out_amount)
    }

    /// Read-only overflow check on the holding that a credit would leave.
    pub fn ensure_can_hold_balance(&self, who: u64, asset: Asset, amount: u128) -> (r: Result<
        (),
        Error,
    >)
        requires
            self.wf(),
        ensures
            r is Ok <==> self.balance_of(who, asset) + amount <= u128::MAX,
            r is Err ==> r == Err::<(), Error>(Error::OverflowOccured),
    {
        let balance = self.balance_of_account(who, asset);
        match balance.checked_add(amount) {
            Option::None => Err(Error::OverflowOccured),
            Option::Some(_) => Ok(()),
        }
    }

    /// Read-only overflow check for both credits of a pair.
    pub fn ensure_can_hold_balances(
        &self,
        who: u64,
        first_asset: Asset,
        first_asset_amount: u128,
        second_asset: Asset,
        second_asset_amount: u128,
    ) -> (r: Result<(), Error>)
        requires
            self.wf(),
        ensures
            r is Ok <==> self.balance_of(who, first_asset) + first_asset_amount <= u128::MAX
                && self.balance_of(who, second_asset) + second_asset_amount <= u128::MAX,
            r is Err ==> r == Err::<(), Error>(Error::OverflowOccured),
    {
        let r1 = self.ensure_can_hold_balance(who, first_asset, first_asset_amount);
        if let Err(e) = r1 {
            return Err(e);
        }
        self.ensure_can_hold_balance(who, second_asset, second_asset_amount)
    }

    /// A pair can be traded only when its two assets differ.
    pub fn ensure_valid_exchange(asset_in: Asset, asset_out: Asset) -> (r: Result<(), Error>)
        ensures
            r is Ok <==> asset_in != asset_out,
            r is Err ==> r == Err::<(), Error>(Error::InvalidExchange),
    {
        if asset_eq(asset_in, asset_out) {
            Err(Error::InvalidExchange)
        } else {
            Ok(())
        }
    }

    /// Puts a pair into canonical order, reporting whether the caller's
    /// order was reversed.
    pub fn adjust_assets_order(first_asset: Asset, second_asset: Asset) -> (r: (
        Asset,
        Asset,
        bool,
    ))
        ensures
            r.0 == canonical_low(first_asset, second_asset),
            r.1 == canonical_high(first_asset, second_asset),
            r.2 == order_swapped(first_asset, second_asset),
    {
        if asset_lt_exec(second_asset, first_asset) {
            (second_asset, first_asset, true)
        } else {
            (first_asset, second_asset, false)
        }
    }

    /// Puts a pair into canonical order and carries the paired amounts
    /// along with their assets.
    pub fn adjust_assets_amount_order(
        first_asset: Asset,
        first_asset_amount: u128,
        second_asset: Asset,
        second_asset_amount: u128,
    ) -> (r: (Asset, u128, Asset, u128))
        ensures
            r.0 == canonical_low(first_asset, second_asset),
            r.2 == canonical_high(first_asset, second_asset),
            r.1 == (if order_swapped(first_asset, second_asset) {
                second_asset_amount
            } else {
                first_asset_amount
            }),
            r.3 == (if order_swapped(first_asset, second_asset) {
                first_asset_amount
            } else {
                second_asset_amount
            }),
    {
        if asset_lt_exec(second_asset, first_asset) {
            (second_asset, second_asset_amount, first_asset, first_asset_amount)
        } else {
            (first_asset, first_asset_amount, second_asset, second_asset_amount)
        }
    }

    /// A divestor's two payouts must each reach the caller's bound,
    /// checked first side first.
    pub fn ensure_divest_expectations(
        first_asset_cost: u128,
        second_asset_cost: u128,
        min_first_asset_received: u128,
        min_second_asset_received: u128,
    ) -> (r: Result<(), Error>)
        ensures
            r is Ok <==> first_asset_cost >= min_first_asset_received && second_asset_cost
                >= min_second_asset_received,
            first_asset_cost < min_first_asset_received ==> r == Err::<(), Error>(
                Error::FirstAssetAmountBelowExpectation,
            ),
            first_asset_cost >= min_first_asset_received && second_asset_cost
                < min_second_asset_received ==> r == Err::<(), Error>(
                Error::SecondAssetAmountBelowExpectation,
            ),
    {
        if first_asset_cost < min_first_asset_received {
            Err(Error::FirstAssetAmountBelowExpectation)
        } else if second_asset_cost < min_second_asset_received {
            Err(Error::SecondAssetAmountBelowExpectation)
        } else {
            Ok(())
        }
    }

    /// The slot index of a pair's pool, if any slot carries it.
    fn find_pool(&self, first: Asset, second: Asset) -> (r: Option<usize>)
        requires
            self.wf(),
        ensures
            match r {
                Option::Some(i) => i < self.exchanges@.len() && self.exchanges@[i as int].first_asset
                    == first && self.exchanges@[i as int].second_asset == second && self.pool_of(
                    first,
                    second,
                ) == Option::Some(self.exchanges@[i as int].exchange),
                Option::None => self.pool_of(first, second) is None,
            },
    {
        let n = self.exchanges.len();
        let mut i: usize = 0;
        while i < n
            invariant
                i <= n,
                n == self.exchanges@.len(),
                self.wf(),
                forall|k: int|
                    0 <= k < i ==> !(self.exchanges@[k].first_asset == first
                        && self.exchanges@[k].second_asset == second),
            decreases n - i,
        {
            if asset_eq(self.exchanges[i].first_asset, first) && asset_eq(
                self.exchanges[i].second_asset,
                second,
            ) {
                proof {
                    lemma_pool_at_index(self.exchanges@, i as int);
                }
                return Option::Some(i);
            }
            i += 1;
        }
        proof {
            lemma_pool_absent(self.exchanges@, first, second);
        }
        Option::None
    }

    /// Fails unless an active pool trades the pair; on success returns
    /// the pool's slot index.
    pub fn ensure_exchange_exists(&self, first_asset: Asset, second_asset: Asset) -> (r: Result<
        usize,
        Error,
    >)
        requires
            self.wf(),
        ensures
            r is Ok <==> self.pool_active(first_asset, second_asset),
            r is Err ==> r == Err::<usize, Error>(Error::ExchangeNotExists),
            r matches Ok(i) ==> i < self.exchanges@.len() && self.exchanges@[i as int].first_asset
                == first_asset && self.exchanges@[i as int].second_asset == second_asset
                && self.pool_of(first_asset, second_asset) == Option::Some(
                self.exchanges@[i as int].exchange,
            ) && self.exchanges@[i as int].exchange.is_active(),
    {
        match self.find_pool(first_asset, second_asset) {
            Option::None => Err(Error::ExchangeNotExists),
            Option::Some(i) => {
                if self.exchanges[i].exchange.invariant > 0 {
                    Ok(i)
                } else {
                    Err(Error::ExchangeNotExists)
                }
            },
        }
    }

    /// Fails when an active pool already trades the pair.
    pub fn ensure_exchange_not_exists(&self, first_asset: Asset, second_asset: Asset) -> (r:
        Result<(), Error>)
        requires
            self.wf(),
        ensures
            r is Ok <==> !self.pool_active(first_asset, second_asset),
            r is Err ==> r == Err::<(), Error>(Error::ExchangeAlreadyExists),
    {
        match self.find_pool(first_asset, second_asset) {
            Option::None => Ok(()),
            Option::Some(i) => {
                if self.exchanges[i].exchange.invariant == 0 {
                    Ok(())
                } else {
                    Err(Error::ExchangeAlreadyExists)
                }
            },
        }
    }

    /// Writes a pool snapshot into the pair's slot, creating the slot on
    /// first launch. Only that pair's pool changes; the ledger and
    /// configuration are untouched.
    #[verifier::loop_isolation(false)]
    fn store_pool(&mut self, first: Asset, second: Asset, exchange: Exchange)
        requires
            old(self).wf(),
            valid_pair(first, second),
            exchange.wf(),
        ensures
            final(self).wf(),
            final(self).pool_of(first, second) == Option::Some(exchange),
            forall|x: Asset, y: Asset|
                !(x == first && y == second) ==> final(self).pool_of(x, y) == old(self).pool_of(
                    x,
                    y,
                ),
            final(self).balances@ == old(self).balances@,
            final(self).same_config(*old(self)),
    {
        let ghost self0 = *self;
        let ghost entries0 = self.exchanges@;
        let n = self.exchanges.len();
        let mut i: usize = 0;
        while i < n
            invariant
                i <= n,
                n == entries0.len(),
                *self == self0,
                self0.exchanges@ == entries0,
                self0.wf(),
                forall|k: int|
                    0 <= k < i ==> !(entries0[k].first_asset == first && entries0[k].second_asset
                        == second),
            decreases n - i,
        {
            if asset_eq(self.exchanges[i].first_asset, first) && asset_eq(
                self.exchanges[i].second_asset,
                second,
            ) {
                let entry = PoolEntry { first_asset: first, second_asset: second, exchange };
                let _old_entry = self.exchanges.remove(i);
                self.exchanges.insert(i, entry);
                proof {
                    assert(self.exchanges@ =~= entries0.update(i as int, entry));
                    let entries1 = entries0.update(i as int, entry);
                    assert(distinct_pairs(entries1)) by {
                        assert forall|p: int, q: int|
                            0 <= p < q < entries1.len() implies !(entries1[p].first_asset
                            == entries1[q].first_asset && entries1[p].second_asset
                            == entries1[q].second_asset) by {
                            assert(entries1[p].first_asset == entries0[p].first_asset
                                && entries1[p].second_asset == entries0[p].second_asset);
                            assert(entries1[q].first_asset == entries0[q].first_asset
                                && entries1[q].second_asset == entries0[q].second_asset);
                        }
                    }
                    lemma_pool_at_index(entries1, i as int);
                    assert forall|x: Asset, y: Asset|
                        !(x == first && y == second) implies pool_of_seq(entries1, x, y)
                        == pool_of_seq(entries0, x, y) by {
                        lemma_pool_update_other(entries0, i as int, entry, x, y);
                    }
                }
                return ;
            }
            i += 1;
        }
        let entry = PoolEntry { first_asset: first, second_asset: second, exchange };
        self.exchanges.push(entry);
        proof {
            let entries1 = entries0.push(entry);
            assert(self.exchanges@ =~= entries1);
            assert(distinct_pairs(entries1)) by {
                assert forall|p: int, q: int|
                    0 <= p < q < entries1.len() implies !(entries1[p].first_asset
                    == entries1[q].first_asset && entries1[p].second_asset
                    == entries1[q].second_asset) by {
                    if q < entries1.len() - 1 {
                        assert(entries1[p] == entries0[p]);
                        assert(entries1[q] == entries0[q]);
                    } else {
                        assert(entries1[p] == entries0[p]);
                        assert(entries1[q] == entry);
                    }
                }
            }
            lemma_pool_at_index(entries1, entries1.len() - 1);
            assert forall|x: Asset, y: Asset|
                !(x == first && y == second) implies pool_of_seq(entries1, x, y) == pool_of_seq(
                entries0,
                x,
                y,
            ) by {
                lemma_pool_push_other(entries0, entry, x, y);
            }
        }
    }

    /// Snapshot of the pair's pool: low reserve, high reserve, cached
    /// invariant and outstanding shares; all zero when the pair has no
    /// pool or a dormant one.
    pub fn exchange_state(&self, first_asset: Asset, second_asset: Asset) -> (r: (
        u128,
        u128,
        u128,
        u128,
    ))
        requires
            self.wf(),
        ensures
            r.0 == self.pool_reserve_low(first_asset, second_asset),
            r.1 == self.pool_reserve_high(first_asset, second_asset),
            r.2 == self.pool_invariant(first_asset, second_asset),
            r.3 == self.pool_total_shares(first_asset, second_asset),
    {
        match self.find_pool(first_asset, second_asset) {
            Option::Some(i) => (
                self.exchanges[i].exchange.first_asset_pool,
                self.exchanges[i].exchange.second_asset_pool,
                self.exchanges[i].exchange.invariant,
                self.exchanges[i].exchange.total_shares,
            ),
            Option::None => (0, 0, 0, 0),
        }
    }

    /// Shares of the pair's pool owned by `account`, zero when the pair
    /// has no pool.
    pub fn account_pool_shares(&self, first_asset: Asset, second_asset: Asset, account: u64) -> (r:
        u128)
        requires
            self.wf(),
        ensures
            r == self.pool_shares_of(first_asset, second_asset, account),
    {
        match self.find_pool(first_asset, second_asset) {
            Option::Some(i) => self.exchanges[i].exchange.shares_of_account(account),
            Option::None => 0,
        }
    }

    /// Launches a pool for the pair with the two deposits, debiting the
    /// sender and crediting it every initial share. The pair may carry no
    /// active pool yet; a slot left dormant by a full divestment may
    /// launch again.
    pub fn initialize_exchange(
        &mut self,
        sender: u64,
        first_asset: Asset,
        first_asset_amount: u128,
        second_asset: Asset,
        second_asset_amount: u128,
    ) -> (r: Result<Event, Error>)
        requires
            old(self).wf(),
        ensures
            final(self).wf(),
            final(self).same_config(*old(self)),
            r is Err ==> final(self).same_state(*old(self)),
            ({
                let low = canonical_low(first_asset, second_asset);
                let high = canonical_high(first_asset, second_asset);
                let amt_low = if order_swapped(first_asset, second_asset) {
                    second_asset_amount
                } else {
                    first_asset_amount
                };
                let amt_high = if order_swapped(first_asset, second_asset) {
                    first_asset_amount
                } else {
                    second_asset_amount
                };
                &&& (r is Ok <==> first_asset != second_asset && amt_low > 0 && amt_high > 0
                    && !old(self).pool_active(low, high) && old(self).balance_of(sender, low)
                    >= amt_low && old(self).balance_of(sender, high) >= amt_high && amt_low
                    * amt_high <= u128::MAX)
                &&& (r is Ok ==> {
                    &&& r == Ok::<Event, Error>(Event::Invested(sender, low, high, amt_low))
                    &&& final(self).pool_active(low, high)
                    &&& final(self).pool_reserve_low(low, high) == amt_low
                    &&& final(self).pool_reserve_high(low, high) == amt_high
                    &&& final(self).pool_invariant(low, high) == amt_low * amt_high
                    &&& final(self).pool_total_shares(low, high) == amt_low
                    &&& final(self).pool_shares_of(low, high, sender) == amt_low
                    &&& (forall|x: Asset, y: Asset|
                        !(x == low && y == high) ==> final(self).pool_of(x, y) == old(
                            self,
                        ).pool_of(x, y))
                    &&& (forall|acc: u64, ast: Asset|
                        final(self).balance_of(acc, ast) as int == old(self).balance_of(acc, ast)
                            - (if acc == sender && ast == low {
                            amt_low as int
                        } else {
                            0
                        }) - (if acc == sender && ast == high {
                            amt_high as int
                        } else {
                            0
                        }))
                })
                &&& (first_asset == second_asset ==> r == Err::<Event, Error>(
                    Error::InvalidExchange,
                ))
                &&& (first_asset != second_asset && amt_low == 0 ==> r == Err::<Event, Error>(
                    Error::LowFirstAssetAmount,
                ))
                &&& (first_asset != second_asset && amt_low > 0 && amt_high == 0 ==> r == Err::<
                    Event,
                    Error,
                >(Error::LowSecondAssetAmount))
                &&& (first_asset != second_asset && amt_low > 0 && amt_high > 0 && old(
                    self,
                ).pool_active(low, high) ==> r == Err::<Event, Error>(Error::ExchangeAlreadyExists))
                &&& (first_asset != second_asset && amt_low > 0 && amt_high > 0 && !old(
                    self,
                ).pool_active(low, high) && old(self).balance_of(sender, low) < amt_low ==> r
                    == Err::<Event, Error>(insufficiency_error(low)))
                &&& (first_asset != second_asset && amt_low > 0 && amt_high > 0 && !old(
                    self,
                ).pool_active(low, high) && old(self).balance_of(sender, low) >= amt_low && old(
                    self,
                ).balance_of(sender, high) < amt_high ==> r == Err::<Event, Error>(
                    insufficiency_error(high),
                ))
                &&& (first_asset != second_asset && amt_low > 0 && amt_high > 0 && !old(
                    self,
                ).pool_active(low, high) && old(self).balance_of(sender, low) >= amt_low && old(
                    self,
                ).balance_of(sender, high) >= amt_high && amt_low * amt_high > u128::MAX ==> r
                    == Err::<Event, Error>(Error::OverflowOccured))
            }),
    {
        if let Err(e) = Self::ensure_valid_exchange(first_asset, second_asset) {
            return Err(e);
        }
        proof {
            lemma_canonical_pair_symmetric(first_asset, second_asset);
        }
        let (low, amt_low, high, amt_high) = Self::adjust_assets_amount_order(
            first_asset,
            first_asset_amount,
            second_asset,
            second_asset_amount,
        );
        if amt_low == 0 {
            return Err(Error::LowFirstAssetAmount);
        }
        if amt_high == 0 {
            return Err(Error::LowSecondAssetAmount);
        }
        if let Err(e) = self.ensure_exchange_not_exists(low, high) {
            return Err(e);
        }
        match self.find_pool(low, high) {
            Option::Some(i) => {
                if let Err(e) = self.exchanges[i].exchange.ensure_launch() {
                    return Err(e);
                }
            },
            Option::None => {},
        }
        if let Err(e) = self.ensure_sufficient_balances(sender, low, amt_low, high, amt_high) {
            return Err(e);
        }
        let (exchange, initial_shares) = match Exchange::initialize_new(
            amt_low,
            amt_high,
            sender,
        ) {
            Err(e) => {
                return Err(e);
            },
            Ok(v) => v,
        };
        self.slash_assets(sender, low, amt_low, high, amt_high);
        self.store_pool(low, high, exchange);
        Ok(Event::Invested(sender, low, high, initial_shares))
    }

    /// Mints `shares` new shares of the pair's pool to the sender against
    /// a proportional deposit of both assets, rounded up in the pool's
    /// favor.
    pub fn invest_liquidity(
        &mut self,
        sender: u64,
        first_asset: Asset,
        second_asset: Asset,
        shares: u128,
    ) -> (r: Result<Event, Error>)
        requires
            old(self).wf(),
        ensures
            final(self).wf(),
            final(self).same_config(*old(self)),
            r is Err ==> final(self).same_state(*old(self)),
            ({
                let low = canonical_low(first_asset, second_asset);
                let high = canonical_high(first_asset, second_asset);
                let rl = old(self).pool_reserve_low(low, high);
                let rh = old(self).pool_reserve_high(low, high);
                let ts = old(self).pool_total_shares(low, high);
                let c1 = invest_cost(shares as int, rl as int, ts as int);
                let c2 = invest_cost(shares as int, rh as int, ts as int);
                &&& (r is Ok <==> old(self).pool_active(low, high) && shares * rl + ts - 1
                    <= u128::MAX && shares * rh + ts - 1 <= u128::MAX && old(self).balance_of(
                    sender,
                    low,
                ) >= c1 && old(self).balance_of(sender, high) >= c2 && shares > 0 && rl + c1
                    <= u128::MAX && rh + c2 <= u128::MAX && ts + shares <= u128::MAX && (rl + c1)
                    * (rh + c2) <= u128::MAX)
                &&& (r is Ok ==> {
                    &&& r == Ok::<Event, Error>(Event::Invested(sender, low, high, shares))
                    &&& final(self).pool_active(low, high)
                    &&& final(self).pool_reserve_low(low, high) == rl + c1
                    &&& final(self).pool_reserve_high(low, high) == rh + c2
                    &&& final(self).pool_invariant(low, high) == (rl + c1) * (rh + c2)
                    &&& final(self).pool_total_shares(low, high) == ts + shares
                    &&& final(self).pool_shares_of(low, high, sender) == old(self).pool_shares_of(
                        low,
                        high,
                        sender,
                    ) + shares
                    &&& (forall|a: u64|
                        a != sender ==> final(self).pool_shares_of(low, high, a) == old(
                            self,
                        ).pool_shares_of(low, high, a))
                    &&& (forall|x: Asset, y: Asset|
                        !(x == low && y == high) ==> final(self).pool_of(x, y) == old(
                            self,
                        ).pool_of(x, y))
                    &&& (forall|acc: u64, ast: Asset|
                        final(self).balance_of(acc, ast) as int == old(self).balance_of(acc, ast)
                            - (if acc == sender && ast == low {
                            c1
                        } else {
                            0
                        }) - (if acc == sender && ast == high {
                            c2
                        } else {
                            0
                        }))
                })
                &&& (!old(self).pool_active(low, high) ==> r == Err::<Event, Error>(
                    Error::ExchangeNotExists,
                ))
                &&& (old(self).pool_active(low, high) && !(shares * rl + ts - 1 <= u128::MAX
                    && shares * rh + ts - 1 <= u128::MAX) ==> r == Err::<Event, Error>(
                    Error::OverflowOccured,
                ))
                &&& (old(self).pool_active(low, high) && shares * rl + ts - 1 <= u128::MAX
                    && shares * rh + ts - 1 <= u128::MAX && old(self).balance_of(sender, low) < c1
                    ==> r == Err::<Event, Error>(insufficiency_error(low)))
                &&& (old(self).pool_active(low, high) && shares * rl + ts - 1 <= u128::MAX
                    && shares * rh + ts - 1 <= u128::MAX && old(self).balance_of(sender, low)
                    >= c1 && old(self).balance_of(sender, high) < c2 ==> r == Err::<Event, Error>(
                    insufficiency_error(high),
                ))
                &&& (old(self).pool_active(low, high) && shares * rl + ts - 1 <= u128::MAX
                    && shares * rh + ts - 1 <= u128::MAX && old(self).balance_of(sender, low)
                    >= c1 && old(self).balance_of(sender, high) >= c2 && shares == 0 ==> r
                    == Err::<Event, Error>(Error::InvalidShares))
            }),
    {
        let (low, high, _) = Self::adjust_assets_order(first_asset, second_asset);
        let idx = match self.ensure_exchange_exists(low, high) {
            Err(e) => {
                return Err(e);
            },
            Ok(i) => i,
        };
        let (c1, c2) = match self.exchanges[idx].exchange.calculate_invest_costs(shares) {
            Err(e) => {
                return Err(e);
            },
            Ok(v) => v,
        };
        if let Err(e) = self.ensure_sufficient_balances(sender, low, c1, high, c2) {
            return Err(e);
        }
        let ghost entries0 = self.exchanges@;
        let mut entry = self.exchanges.remove(idx);
        let invest_result = entry.exchange.invest(c1, c2, shares, sender);
        let ghost new_entry = entry;
        self.exchanges.insert(idx, entry);
        proof {
            assert(self.exchanges@ =~= entries0.update(idx as int, new_entry));
            if invest_result is Err {
                assert(self.exchanges@ =~= entries0);
            } else {
                let entries1 = entries0.update(idx as int, new_entry);
                assert(distinct_pairs(entries1)) by {
                    assert forall|p: int, q: int|
                        0 <= p < q < entries1.len() implies !(entries1[p].first_asset
                        == entries1[q].first_asset && entries1[p].second_asset
                        == entries1[q].second_asset) by {
                        assert(entries1[p].first_asset == entries0[p].first_asset
                            && entries1[p].second_asset == entries0[p].second_asset);
                        assert(entries1[q].first_asset == entries0[q].first_asset
                            && entries1[q].second_asset == entries0[q].second_asset);
                    }
                }
                lemma_pool_at_index(entries1, idx as int);
                assert forall|x: Asset, y: Asset|
                    !(x == low && y == high) implies pool_of_seq(entries1, x, y) == pool_of_seq(
                    entries0,
                    x,
                    y,
                ) by {
                    lemma_pool_update_other(entries0, idx as int, new_entry, x, y);
                }
            }
        }
        if let Err(e) = invest_result {
            return Err(e);
        }
        proof {
            assert(valid_pair(low, high));
        }
        self.slash_assets(sender, low, c1, high, c2);
        Ok(Event::Invested(sender, low, high, shares))
    }

    /// Burns `shares_burned` of the sender's shares of the pair's pool
    /// against a proportional payout of both assets, rounded down in the
    /// pool's favor. Burning every outstanding share returns the slot to
    /// its dormant state.
    pub fn divest_liquidity(
        &mut self,
        sender: u64,
        first_asset: Asset,
        second_asset: Asset,
        shares_burned: u128,
        min_first_asset_received: u128,
        min_second_asset_received: u128,
    ) -> (r: Result<Event, Error>)
        requires
            old(self).wf(),
        ensures
            final(self).wf(),
            final(self).same_config(*old(self)),
            r is Err ==> final(self).same_state(*old(self)),
            ({
                let low = canonical_low(first_asset, second_asset);
                let high = canonical_high(first_asset, second_asset);
                let rl = old(self).pool_reserve_low(low, high);
                let rh = old(self).pool_reserve_high(low, high);
                let ts = old(self).pool_total_shares(low, high);
                let owned = old(self).pool_shares_of(low, high, sender);
                let c1 = divest_cost(shares_burned as int, rl as int, ts as int);
                let c2 = divest_cost(shares_burned as int, rh as int, ts as int);
                &&& (r is Ok <==> old(self).pool_active(low, high) && owned >= shares_burned
                    && shares_burned * rl <= u128::MAX && shares_burned * rh <= u128::MAX && c1
                    >= min_first_asset_received && c2 >= min_second_asset_received && old(
                    self,
                ).balance_of(sender, low) + c1 <= u128::MAX && old(self).balance_of(sender, high)
                    + c2 <= u128::MAX)
                &&& (r is Ok ==> {
                    &&& r == Ok::<Event, Error>(Event::Divested(sender, low, high, shares_burned))
                    &&& final(self).pool_reserve_low(low, high) == rl - c1
                    &&& final(self).pool_reserve_high(low, high) == rh - c2
                    &&& final(self).pool_total_shares(low, high) == ts - shares_burned
                    &&& final(self).pool_invariant(low, high) == (rl - c1) * (rh - c2)
                    &&& final(self).pool_shares_of(low, high, sender) == owned - shares_burned
                    &&& (shares_burned == ts ==> !final(self).pool_active(low, high))
                    &&& (shares_burned < ts ==> final(self).pool_active(low, high))
                    &&& (forall|a: u64|
                        a != sender ==> final(self).pool_shares_of(low, high, a) == old(
                            self,
                        ).pool_shares_of(low, high, a))
                    &&& (forall|x: Asset, y: Asset|
                        !(x == low && y == high) ==> final(self).pool_of(x, y) == old(
                            self,
                        ).pool_of(x, y))
                    &&& (forall|acc: u64, ast: Asset|
                        final(self).balance_of(acc, ast) as int == old(self).balance_of(acc, ast)
                            + (if acc == sender && ast == low {
                            c1
                        } else {
                            0
                        }) + (if acc == sender && ast == high {
                            c2
                        } else {
                            0
                        }))
                })
                &&& (!old(self).pool_active(low, high) ==> r == Err::<Event, Error>(
                    Error::ExchangeNotExists,
                ))
                &&& (old(self).pool_active(low, high) && owned == 0 && shares_burned > 0 ==> r
                    == Err::<Event, Error>(Error::DoesNotOwnShare))
                &&& (old(self).pool_active(low, high) && 0 < owned < shares_burned ==> r == Err::<
                    Event,
                    Error,
                >(Error::InsufficientShares))
                &&& (old(self).pool_active(low, high) && owned >= shares_burned && !(shares_burned
                    * rl <= u128::MAX && shares_burned * rh <= u128::MAX) ==> r == Err::<
                    Event,
                    Error,
                >(Error::OverflowOccured))
                &&& (old(self).pool_active(low, high) && owned >= shares_burned && shares_burned
                    * rl <= u128::MAX && shares_burned * rh <= u128::MAX && c1
                    < min_first_asset_received ==> r == Err::<Event, Error>(
                    Error::FirstAssetAmountBelowExpectation,
                ))
                &&& (old(self).pool_active(low, high) && owned >= shares_burned && shares_burned
                    * rl <= u128::MAX && shares_burned * rh <= u128::MAX && c1
                    >= min_first_asset_received && c2 < min_second_asset_received ==> r == Err::<
                    Event,
                    Error,
                >(Error::SecondAssetAmountBelowExpectation))
            }),
    {
        let (low, high, _) = Self::adjust_assets_order(first_asset, second_asset);
        let idx = match self.ensure_exchange_exists(low, high) {
            Err(e) => {
                return Err(e);
            },
            Ok(i) => i,
        };
        if let Err(e) = self.exchanges[idx].exchange.ensure_burned_shares(
            sender,
            shares_burned,
        ) {
            return Err(e);
        }
        let (c1, c2) = match self.exchanges[idx].exchange.calculate_divest_costs(shares_burned) {
            Err(e) => {
                return Err(e);
            },
            Ok(v) => v,
        };
        if let Err(e) = Self::ensure_divest_expectations(
            c1,
            c2,
            min_first_asset_received,
            min_second_asset_received,
        ) {
            return Err(e);
        }
        if let Err(e) = self.ensure_can_hold_balances(sender, low, c1, high, c2) {
            return Err(e);
        }
        let ghost entries0 = self.exchanges@;
        let mut entry = self.exchanges.remove(idx);
        entry.exchange.divest(c1, c2, shares_burned, sender);
        let ghost new_entry = entry;
        self.exchanges.insert(idx, entry);
        proof {
            assert(self.exchanges@ =~= entries0.update(idx as int, new_entry));
            let entries1 = entries0.update(idx as int, new_entry);
            assert(distinct_pairs(entries1)) by {
                assert forall|p: int, q: int|
                    0 <= p < q < entries1.len() implies !(entries1[p].first_asset
                    == entries1[q].first_asset && entries1[p].second_asset
                    == entries1[q].second_asset) by {
                    assert(entries1[p].first_asset == entries0[p].first_asset
                        && entries1[p].second_asset == entries0[p].second_asset);
                    assert(entries1[q].first_asset == entries0[q].first_asset
                        && entries1[q].second_asset == entries0[q].second_asset);
                }
            }
            lemma_pool_at_index(entries1, idx as int);
            assert forall|x: Asset, y: Asset|
                !(x == low && y == high) implies pool_of_seq(entries1, x, y) == pool_of_seq(
                entries0,
                x,
                y,
            ) by {
                lemma_pool_update_other(entries0, idx as int, new_entry, x, y);
            }
            assert(valid_pair(low, high));
        }
        self.mint_assets(sender, low, c1, high, c2);
        Ok(Event::Divested(sender, low, high, shares_burned))
    }

    /// Swaps an exact input amount of `asset_in` for `asset_out` at the
    /// constant-product price, enforcing the caller's slippage bound. The
    /// full input joins the pool; the treasury's slice of the fee leaves
    /// it for the treasury account. The payout goes to the sender.
    pub fn swap_to_exact(
        &mut self,
        sender: u64,
        asset_in: Asset,
        asset_in_amount: u128,
        asset_out: Asset,
        min_asset_out_amount: u128,
        receiver: u64,
    ) -> (r: Result<Event, Error>)
        requires
            old(self).wf(),
        ensures
            final(self).wf(),
            final(self).same_config(*old(self)),
            r is Err ==> final(self).same_state(*old(self)),
            ({
                let low = canonical_low(asset_in, asset_out);
                let high = canonical_high(asset_in, asset_out);
                let swapped = order_swapped(asset_in, asset_out);
                let fnom = old(self).fee_rate_nominator;
                let fden = old(self).fee_rate_denominator;
                let rin = if swapped {
                    old(self).pool_reserve_high(low, high)
                } else {
                    old(self).pool_reserve_low(low, high)
                };
                let rout = if swapped {
                    old(self).pool_reserve_low(low, high)
                } else {
                    old(self).pool_reserve_high(low, high)
                };
                let out = spec_amount_out(rin, rout, asset_in_amount, fnom, fden);
                let tfee = spec_treasury_fee(asset_in_amount, fnom, fden, old(self).dex_treasury);
                let nri = spec_new_reserve_in(
                    rin,
                    asset_in_amount,
                    fnom,
                    fden,
                    old(self).dex_treasury,
                );
                let nro = spec_new_reserve_out(rin, rout, asset_in_amount, fnom, fden);
                let treasury_ok = match old(self).dex_treasury {
                    Option::None => true,
                    Option::Some(t) => ({
                        let base = if t.dex_account == sender {
                            old(self).balance_of(sender, asset_in) - asset_in_amount
                        } else {
                            old(self).balance_of(t.dex_account, asset_in) as int
                        };
                        base + tfee <= u128::MAX
                    }),
                };
                &&& (r is Ok <==> asset_in != asset_out && old(self).pool_active(low, high)
                    && old(self).balance_of(sender, asset_in) >= asset_in_amount && swap_feasible(
                    rin,
                    rout,
                    asset_in_amount,
                    fnom,
                    fden,
                    old(self).dex_treasury,
                ) && out >= min_asset_out_amount && old(self).balance_of(sender, asset_out) + out
                    <= u128::MAX && treasury_ok)
                &&& (r is Ok ==> {
                    &&& r == Ok::<Event, Error>(
                        Event::Exchanged(
                            sender,
                            asset_in,
                            asset_in_amount,
                            asset_out,
                            out as u128,
                            match old(self).dex_treasury {
                                Option::Some(_) => Option::Some(tfee as u128),
                                Option::None => Option::None,
                            },
                        ),
                    )
                    &&& final(self).pool_active(low, high)
                    &&& final(self).pool_reserve_low(low, high) == (if swapped {
                        nro
                    } else {
                        nri
                    })
                    &&& final(self).pool_reserve_high(low, high) == (if swapped {
                        nri
                    } else {
                        nro
                    })
                    &&& final(self).pool_invariant(low, high) == final(self).pool_reserve_low(
                        low,
                        high,
                    ) * final(self).pool_reserve_high(low, high)
                    &&& final(self).pool_invariant(low, high) >= old(self).pool_invariant(
                        low,
                        high,
                    )
                    &&& final(self).pool_total_shares(low, high) == old(self).pool_total_shares(
                        low,
                        high,
                    )
                    &&& (forall|a: u64|
                        final(self).pool_shares_of(low, high, a) == old(self).pool_shares_of(
                            low,
                            high,
                            a,
                        ))
                    &&& (forall|x: Asset, y: Asset|
                        !(x == low && y == high) ==> final(self).pool_of(x, y) == old(
                            self,
                        ).pool_of(x, y))
                    &&& (forall|acc: u64, ast: Asset|
                        final(self).balance_of(acc, ast) as int == old(self).balance_of(acc, ast)
                            - (if acc == sender && ast == asset_in {
                            asset_in_amount as int
                        } else {
                            0
                        }) + (if acc == sender && ast == asset_out {
                            out
                        } else {
                            0
                        }) + (match old(self).dex_treasury {
                            Option::Some(t) => if acc == t.dex_account && ast == asset_in {
                                tfee
                            } else {
                                0
                            },
                            Option::None => 0,
                        }))
                })
                &&& (asset_in == asset_out ==> r == Err::<Event, Error>(Error::InvalidExchange))
                &&& (asset_in != asset_out && !old(self).pool_active(low, high) ==> r == Err::<
                    Event,
                    Error,
                >(Error::ExchangeNotExists))
                &&& (asset_in != asset_out && old(self).pool_active(low, high) && old(
                    self,
                ).balance_of(sender, asset_in) < asset_in_amount ==> r == Err::<Event, Error>(
                    insufficiency_error(asset_in),
                ))
                &&& (asset_in != asset_out && old(self).pool_active(low, high) && old(
                    self,
                ).balance_of(sender, asset_in) >= asset_in_amount && !swap_feasible(
                    rin,
                    rout,
                    asset_in_amount,
                    fnom,
                    fden,
                    old(self).dex_treasury,
                ) ==> r == Err::<Event, Error>(Error::OverflowOccured))
                &&& (asset_in != asset_out && old(self).pool_active(low, high) && old(
                    self,
                ).balance_of(sender, asset_in) >= asset_in_amount && swap_feasible(
                    rin,
                    rout,
                    asset_in_amount,
                    fnom,
                    fden,
                    old(self).dex_treasury,
                ) && out < min_asset_out_amount ==> r == Err::<Event, Error>(
                    if swapped {
                        Error::FirstAssetAmountBelowExpectation
                    } else {
                        Error::SecondAssetAmountBelowExpectation
                    },
                ))
            }),
    {
        if let Err(e) = Self::ensure_valid_exchange(asset_in, asset_out) {
            return Err(e);
        }
        proof {
            lemma_canonical_pair_symmetric(asset_in, asset_out);
        }
        let (low, high, swapped) = Self::adjust_assets_order(asset_in, asset_out);
        let idx = match self.ensure_exchange_exists(low, high) {
            Err(e) => {
                return Err(e);
            },
            Ok(i) => i,
        };
        if let Err(e) = self.ensure_sufficient_balance(sender, asset_in, asset_in_amount) {
            return Err(e);
        }
        let (delta, fee_data) = if !swapped {
            let (delta, fee_data) = match self.exchanges[idx].exchange
                .calculate_first_to_second_asset_swap(
                asset_in_amount,
                self.fee_rate_nominator,
                self.fee_rate_denominator,
                &self.dex_treasury,
            ) {
                Err(e) => {
                    return Err(e);
                },
                Ok(v) => v,
            };
            if let Err(e) = self.exchanges[idx].exchange.ensure_second_asset_amount(
                delta.amount,
                min_asset_out_amount,
            ) {
                return Err(e);
            }
            (delta, fee_data)
        } else {
            let (delta, fee_data) = match self.exchanges[idx].exchange
                .calculate_second_to_first_asset_swap(
                asset_in_amount,
                self.fee_rate_nominator,
                self.fee_rate_denominator,
                &self.dex_treasury,
            ) {
                Err(e) => {
                    return Err(e);
                },
                Ok(v) => v,
            };
            if let Err(e) = self.exchanges[idx].exchange.ensure_first_asset_amount(
                delta.amount,
                min_asset_out_amount,
            ) {
                return Err(e);
            }
            (delta, fee_data)
        };
        if let Err(e) = self.ensure_can_hold_balance(sender, asset_out, delta.amount) {
            return Err(e);
        }
        if let Option::Some((treasury_fee, treasury_account)) = fee_data {
            let treasury_balance = self.balance_of_account(treasury_account, asset_in);
            let base = if treasury_account == sender {
                treasury_balance - asset_in_amount
            } else {
                treasury_balance
            };
            if base.checked_add(treasury_fee).is_none() {
                return Err(Error::OverflowOccured);
            }
        }
        let ghost entries0 = self.exchanges@;
        let mut entry = self.exchanges.remove(idx);
        proof {
            vstd::arithmetic::mul::lemma_mul_is_commutative(
                delta.first_asset_pool as int,
                delta.second_asset_pool as int,
            );
        }
        entry.exchange.update_pools(delta.first_asset_pool, delta.second_asset_pool);
        let ghost new_entry = entry;
        self.exchanges.insert(idx, entry);
        proof {
            assert(self.exchanges@ =~= entries0.update(idx as int, new_entry));
            let entries1 = entries0.update(idx as int, new_entry);
            assert(distinct_pairs(entries1)) by {
                assert forall|p: int, q: int|
                    0 <= p < q < entries1.len() implies !(entries1[p].first_asset
                    == entries1[q].first_asset && entries1[p].second_asset
                    == entries1[q].second_asset) by {
                    assert(entries1[p].first_asset == entries0[p].first_asset
                        && entries1[p].second_asset == entries0[p].second_asset);
                    assert(entries1[q].first_asset == entries0[q].first_asset
                        && entries1[q].second_asset == entries0[q].second_asset);
                }
            }
            lemma_pool_at_index(entries1, idx as int);
            assert forall|x: Asset, y: Asset|
                !(x == low && y == high) implies pool_of_seq(entries1, x, y) == pool_of_seq(
                entries0,
                x,
                y,
            ) by {
                lemma_pool_update_other(entries0, idx as int, new_entry, x, y);
            }
        }
        self.slash_asset(sender, asset_in, asset_in_amount);
        self.mint_asset(sender, asset_out, delta.amount);
        let treasury_fee_paid: Option<u128> = match fee_data {
            Option::Some((treasury_fee, treasury_account)) => {
                self.mint_asset(treasury_account, asset_in, treasury_fee);
                Option::Some(treasury_fee)
            },
            Option::None => Option::None,
        };
        Ok(
            Event::Exchanged(
                sender,
                asset_in,
                asset_in_amount,
                asset_out,
                delta.amount,
                treasury_fee_paid,
            ),
        )
    }
}

} // verus!
