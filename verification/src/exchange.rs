use vstd::prelude::*;

use crate::errors::Error;
use crate::math::{
    divest_cost, fee_amount, invest_cost, lemma_divest_cost_bounds, lemma_fee_le_amount,
    lemma_invariant_monotone, lemma_invest_cost_positive, lemma_swap_output_bounds, swap_output,
};
use crate::shares::{
    distinct_accounts, lemma_shares_absent, lemma_shares_at_index, lemma_shares_of_le_sum,
    lemma_shares_push_other, lemma_shares_update_other, lemma_sum_push, lemma_sum_update,
    shares_of_seq, sum_shares, ShareRow,
};
use crate::treasury::DexTreasury;

verus! {

/// One liquidity pool: the two reserves in canonical asset order, the
/// cached product of the reserves, and the outstanding ownership shares.
///
/// A zero `invariant` marks the slot as not launched; the degenerate
/// all-zero pool and an absent storage entry are the same state.
pub struct Exchange {
    pub first_asset_pool: u128,
    pub second_asset_pool: u128,
    pub invariant: u128,
    pub total_shares: u128,
    pub shares: Vec<ShareRow>,
}

/// Result of pricing one swap: the amount paid out and the two reserve
/// values the pool will hold after the swap is committed.
#[derive(Clone, Copy, PartialEq, Eq, Structural, Debug)]
pub struct SwapDelta {
    pub amount: u128,
    pub first_asset_pool: u128,
    pub second_asset_pool: u128,
}

/// Total fee taken from a swap input, floored.
pub open spec fn spec_fee_total(amount_in: u128, fee_nom: u128, fee_den: u128) -> int {
    fee_amount(amount_in as int, fee_nom as int, fee_den as int)
}

/// Swap input net of the total fee.
pub open spec fn spec_net_in(amount_in: u128, fee_nom: u128, fee_den: u128) -> int {
    amount_in - spec_fee_total(amount_in, fee_nom, fee_den)
}

/// The slice of the total fee that leaves the pool for the treasury.
pub open spec fn spec_treasury_fee(
    amount_in: u128,
    fee_nom: u128,
    fee_den: u128,
    treasury: Option<DexTreasury>,
) -> int {
    match treasury {
        Option::None => 0,
        Option::Some(t) => fee_amount(
            spec_fee_total(amount_in, fee_nom, fee_den),
            t.treasury_fee_rate_nominator as int,
            t.treasury_fee_rate_denominator as int,
        ),
    }
}

/// Amount paid out by the constant-product rule for a given gross input.
pub open spec fn spec_amount_out(
    reserve_in: u128,
    reserve_out: u128,
    amount_in: u128,
    fee_nom: u128,
    fee_den: u128,
) -> int {
    swap_output(reserve_in as int, reserve_out as int, spec_net_in(amount_in, fee_nom, fee_den))
}

/// Input-side reserve after the swap: the full input joins the pool and
/// the treasury's slice of the fee leaves it.
pub open spec fn spec_new_reserve_in(
    reserve_in: u128,
    amount_in: u128,
    fee_nom: u128,
    fee_den: u128,
    treasury: Option<DexTreasury>,
) -> int {
    reserve_in + amount_in - spec_treasury_fee(amount_in, fee_nom, fee_den, treasury)
}

/// Output-side reserve after the swap.
pub open spec fn spec_new_reserve_out(
    reserve_in: u128,
    reserve_out: u128,
    amount_in: u128,
    fee_nom: u128,
    fee_den: u128,
) -> int {
    reserve_out - spec_amount_out(reserve_in, reserve_out, amount_in, fee_nom, fee_den)
}

/// Every checked arithmetic step of pricing a swap stays within the
/// balance type, in the order the steps are computed.
pub open spec fn swap_feasible(
    reserve_in: u128,
    reserve_out: u128,
    amount_in: u128,
    fee_nom: u128,
    fee_den: u128,
    treasury: Option<DexTreasury>,
) -> bool {
    &&& amount_in * fee_nom <= u128::MAX
    &&& spec_net_in(amount_in, fee_nom, fee_den) * reserve_out <= u128::MAX
    &&& reserve_in + spec_net_in(amount_in, fee_nom, fee_den) <= u128::MAX
    &&& (treasury matches Option::Some(t) ==> spec_fee_total(amount_in, fee_nom, fee_den)
        * t.treasury_fee_rate_nominator <= u128::MAX)
    &&& reserve_in + amount_in <= u128::MAX
    &&& spec_new_reserve_in(reserve_in, amount_in, fee_nom, fee_den, treasury)
        * spec_new_reserve_out(reserve_in, reserve_out, amount_in, fee_nom, fee_den) <= u128::MAX
}

impl Exchange {
    /// Well-formedness, maintained by every operation: the cached
    /// invariant is the product of the reserves; an active pool has
    /// positive reserves and shares; a dormant slot is all zero; and the
    /// share table has one row per account, summing to `total_shares`.
    pub open spec fn wf(self) -> bool {
        &&& self.invariant == self.first_asset_pool * self.second_asset_pool
        &&& self.invariant > 0 ==> self.first_asset_pool > 0 && self.second_asset_pool > 0
            && self.total_shares > 0
        &&& self.invariant == 0 ==> self.first_asset_pool == 0 && self.second_asset_pool == 0
            && self.total_shares == 0
        &&& distinct_accounts(self.shares@)
        &&& sum_shares(self.shares@) == self.total_shares
    }

    /// An active pool is one that has been launched and not fully divested.
    pub open spec fn is_active(self) -> bool {
        self.invariant > 0
    }

    /// Share balance of one account.
    pub open spec fn shares_of(self, account: u64) -> u128 {
        shares_of_seq(self.shares@, account)
    }

    /// The dormant all-zero pool, also standing for an absent storage slot.
    pub fn empty() -> (r: Exchange)
        ensures
            r.wf(),
            !r.is_active(),
            r.first_asset_pool == 0,
            r.second_asset_pool == 0,
            r.invariant == 0,
            r.total_shares == 0,
            r.shares@.len() == 0,
            sum_shares(r.shares@) == 0,
            forall|a: u64| r.shares_of(a) == 0,
    {
        let r = Exchange {
            first_asset_pool: 0,
            second_asset_pool: 0,
            invariant: 0,
            total_shares: 0,
            shares: Vec::new(),
        };
        proof {
            assert forall|a: u64| r.shares_of(a) == 0 by {
                lemma_shares_absent(r.shares@, a);
            }
        }
        r
    }

    /// Share balance of `account`, read from the table.
    pub fn shares_of_account(&self, account: u64) -> (r: u128)
        requires
            self.wf(),
        ensures
            r == self.shares_of(account),
    {
        let n = self.shares.len();
        let mut i: usize = 0;
        while i < n
            invariant
                i <= n,
                n == self.shares@.len(),
                self.wf(),
                forall|k: int| 0 <= k < i ==> self.shares@[k].account != account,
            decreases n - i,
        {
            if self.shares[i].account == account {
                proof {
                    lemma_shares_at_index(self.shares@, i as int);
                }
                return self.shares[i].shares;
            }
            i += 1;
        }
        proof {
            lemma_shares_absent(self.shares@, account);
        }
        0
    }

    /// Sets `account`'s share balance to `new_amount`, creating the row
    /// when absent. Every other balance is untouched and the sum moves by
    /// exactly the difference.
    #[verifier::loop_isolation(false)]
    fn set_share(&mut self, account: u64, new_amount: u128)
        requires
            distinct_accounts(old(self).shares@),
        ensures
            distinct_accounts(final(self).shares@),
            final(self).shares_of(account) == new_amount,
            forall|a: u64|
                a != account ==> final(self).shares_of(a) == old(self).shares_of(a),
            sum_shares(final(self).shares@) == sum_shares(old(self).shares@)
                - old(self).shares_of(account) + new_amount,
            final(self).first_asset_pool == old(self).first_asset_pool,
            final(self).second_asset_pool == old(self).second_asset_pool,
            final(self).invariant == old(self).invariant,
            final(self).total_shares == old(self).total_shares,
    {
        let ghost self0 = *self;
        let ghost rows0 = self.shares@;
        let n = self.shares.len();
        let mut i: usize = 0;
        while i < n
            invariant
                i <= n,
                n == rows0.len(),
                *self == self0,
                self0.shares@ == rows0,
                distinct_accounts(rows0),
                forall|k: int| 0 <= k < i ==> rows0[k].account != account,
            decreases n - i,
        {
            if self.shares[i].account == account {
                let row = ShareRow { account, shares: new_amount };
                let _old_row = self.shares.remove(i);
                self.shares.insert(i, row);
                proof {
                    assert(self.shares@ =~= rows0.update(i as int, row));
                    let rows1 = rows0.update(i as int, row);
                    assert(distinct_accounts(rows1)) by {
                        assert forall|p: int, q: int|
                            0 <= p < q < rows1.len() implies rows1[p].account != rows1[q].account by {
                            assert(rows1[p].account == rows0[p].account);
                            assert(rows1[q].account == rows0[q].account);
                        }
                    }
                    lemma_shares_at_index(rows1, i as int);
                    assert forall|a: u64|
                        a != account implies shares_of_seq(rows1, a) == shares_of_seq(rows0, a) by {
                        lemma_shares_update_other(rows0, i as int, row, a);
                    }
                    lemma_sum_update(rows0, i as int, row);
                    lemma_shares_at_index(rows0, i as int);
                }
                return ;
            }
            i += 1;
        }
        let row = ShareRow { account, shares: new_amount };
        self.shares.push(row);
        proof {
            let rows1 = rows0.push(row);
            assert(self.shares@ =~= rows1);
            assert(distinct_accounts(rows1)) by {
                assert forall|p: int, q: int|
                    0 <= p < q < rows1.len() implies rows1[p].account != rows1[q].account by {
                    if q < rows1.len() - 1 {
                        assert(rows1[p].account == rows0[p].account);
                        assert(rows1[q].account == rows0[q].account);
                    } else {
                        assert(rows1[p].account == rows0[p].account);
                        assert(rows1[q] == row);
                    }
                }
            }
            lemma_shares_at_index(rows1, rows1.len() - 1);
            assert forall|a: u64|
                a != account implies shares_of_seq(rows1, a) == shares_of_seq(rows0, a) by {
                lemma_shares_push_other(rows0, row, a);
            }
            lemma_sum_push(rows0, row);
            lemma_shares_absent(rows0, account);
        }
    }

    /// A slot may launch only from the dormant state: a nonzero invariant
    /// or outstanding shares mean a pool already lives here.
    pub fn ensure_launch(&self) -> (r: Result<(), Error>)
        ensures
            r is Ok <==> self.invariant == 0 && self.total_shares == 0,
            r == Err::<(), Error>(Error::InvariantNotNull) <==> self.invariant != 0,
            r == Err::<(), Error>(Error::TotalSharesNotNull) <==> self.invariant == 0
                && self.total_shares != 0,
    {
        if self.invariant != 0 {
            Err(Error::InvariantNotNull)
        } else if self.total_shares != 0 {
            Err(Error::TotalSharesNotNull)
        } else {
            Ok(())
        }
    }

    /// Launches a new pool from the two deposits, issuing the initiator
    /// an initial share balance equal to the first (canonically low)
    /// deposit. Fails only when the product of the deposits does not fit
    /// the balance type.
    pub fn initialize_new(
        first_asset_amount: u128,
        second_asset_amount: u128,
        initiator: u64,
    ) -> (r: Result<(Exchange, u128), Error>)
        requires
            first_asset_amount > 0,
            second_asset_amount > 0,
        ensures
            r is Ok <==> first_asset_amount * second_asset_amount <= u128::MAX,
            r is Err ==> r == Err::<(Exchange, u128), Error>(Error::OverflowOccured),
            r matches Ok((ex, issued)) ==> {
                &&& ex.wf()
                &&& ex.is_active()
                &&& ex.first_asset_pool == first_asset_amount
                &&& ex.second_asset_pool == second_asset_amount
                &&& ex.invariant == first_asset_amount * second_asset_amount
                &&& ex.total_shares == first_asset_amount
                &&& issued == first_asset_amount
                &&& ex.shares_of(initiator) == first_asset_amount
                &&& forall|a: u64| a != initiator ==> ex.shares_of(a) == 0
            },
    {
        let inv = match first_asset_amount.checked_mul(second_asset_amount) {
            Option::None => {
                return Err(Error::OverflowOccured);
            },
            Option::Some(p) => p,
        };
        proof {
            assert(first_asset_amount * second_asset_amount >= 1) by (nonlinear_arith)
                requires
                    first_asset_amount >= 1,
                    second_asset_amount >= 1,
            ;
        }
        let mut ex = Exchange::empty();
        ex.first_asset_pool = first_asset_amount;
        ex.second_asset_pool = second_asset_amount;
        ex.invariant = inv;
        ex.total_shares = first_asset_amount;
        ex.set_share(initiator, first_asset_amount);
        Ok((ex, first_asset_amount))
    }

    /// Prices a swap whose input is the first (canonically low) asset.
    /// Read-only: returns the output amount, the reserves the pool will
    /// hold afterwards, and the treasury's fee slice with its account.
    pub fn calculate_first_to_second_asset_swap(
        &self,
        amount_in: u128,
        fee_nom: u128,
        fee_den: u128,
        treasury: &Option<DexTreasury>,
    ) -> (r: Result<(SwapDelta, Option<(u128, u64)>), Error>)
        requires
            self.wf(),
            self.is_active(),
            fee_den > 0,
            fee_nom <= fee_den,
            *treasury matches Option::Some(t) ==> t.wf(),
        ensures
            r is Ok <==> swap_feasible(
                self.first_asset_pool,
                self.second_asset_pool,
                amount_in,
                fee_nom,
                fee_den,
                *treasury,
            ),
            r is Err ==> r == Err::<(SwapDelta, Option<(u128, u64)>), Error>(
                Error::OverflowOccured,
            ),
            r matches Ok((delta, fee_data)) ==> {
                &&& delta.amount == spec_amount_out(
                    self.first_asset_pool,
                    self.second_asset_pool,
                    amount_in,
                    fee_nom,
                    fee_den,
                )
                &&& delta.first_asset_pool == spec_new_reserve_in(
                    self.first_asset_pool,
                    amount_in,
                    fee_nom,
                    fee_den,
                    *treasury,
                )
                &&& delta.second_asset_pool == spec_new_reserve_out(
                    self.first_asset_pool,
                    self.second_asset_pool,
                    amount_in,
                    fee_nom,
                    fee_den,
                )
                &&& delta.first_asset_pool * delta.second_asset_pool >= self.invariant
                &&& delta.first_asset_pool >= 1
                &&& delta.second_asset_pool >= 1
                &&& delta.amount < self.second_asset_pool
                &&& (*treasury is None ==> fee_data is None)
                &&& (*treasury matches Option::Some(t) ==> fee_data == Option::Some(
                    (
                        spec_treasury_fee(amount_in, fee_nom, fee_den, *treasury) as u128,
                        t.dex_account,
                    ),
                ))
                &&& spec_treasury_fee(amount_in, fee_nom, fee_den, *treasury) <= amount_in
            },
    {
        let (amount_out, new_rin, new_rout, fee_data) = compute_swap(
            self.first_asset_pool,
            self.second_asset_pool,
            amount_in,
            fee_nom,
            fee_den,
            treasury,
        )?;
        Ok(
            (
                SwapDelta {
                    amount: amount_out,
                    first_asset_pool: new_rin,
                    second_asset_pool: new_rout,
                },
                fee_data,
            ),
        )
    }

    /// Prices a swap whose input is the second (canonically high) asset:
    /// the same rule with the two reserves exchanged.
    pub fn calculate_second_to_first_asset_swap(
        &self,
        amount_in: u128,
        fee_nom: u128,
        fee_den: u128,
        treasury: &Option<DexTreasury>,
    ) -> (r: Result<(SwapDelta, Option<(u128, u64)>), Error>)
        requires
            self.wf(),
            self.is_active(),
            fee_den > 0,
            fee_nom <= fee_den,
            *treasury matches Option::Some(t) ==> t.wf(),
        ensures
            r is Ok <==> swap_feasible(
                self.second_asset_pool,
                self.first_asset_pool,
                amount_in,
                fee_nom,
                fee_den,
                *treasury,
            ),
            r is Err ==> r == Err::<(SwapDelta, Option<(u128, u64)>), Error>(
                Error::OverflowOccured,
            ),
            r matches Ok((delta, fee_data)) ==> {
                &&& delta.amount == spec_amount_out(
                    self.second_asset_pool,
                    self.first_asset_pool,
                    amount_in,
                    fee_nom,
                    fee_den,
                )
                &&& delta.second_asset_pool == spec_new_reserve_in(
                    self.second_asset_pool,
                    amount_in,
                    fee_nom,
                    fee_den,
                    *treasury,
                )
                &&& delta.first_asset_pool == spec_new_reserve_out(
                    self.second_asset_pool,
                    self.first_asset_pool,
                    amount_in,
                    fee_nom,
                    fee_den,
                )
                &&& delta.first_asset_pool * delta.second_asset_pool >= self.invariant
                &&& delta.first_asset_pool >= 1
                &&& delta.second_asset_pool >= 1
                &&& delta.amount < self.first_asset_pool
                &&& (*treasury is None ==> fee_data is None)
                &&& (*treasury matches Option::Some(t) ==> fee_data == Option::Some(
                    (
                        spec_treasury_fee(amount_in, fee_nom, fee_den, *treasury) as u128,
                        t.dex_account,
                    ),
                ))
                &&& spec_treasury_fee(amount_in, fee_nom, fee_den, *treasury) <= amount_in
            },
    {
        let (amount_out, new_rin, new_rout, fee_data) = compute_swap(
            self.second_asset_pool,
            self.first_asset_pool,
            amount_in,
            fee_nom,
            fee_den,
            treasury,
        )?;
        proof {
            vstd::arithmetic::mul::lemma_mul_is_commutative(
                self.second_asset_pool as int,
                self.first_asset_pool as int,
            );
            vstd::arithmetic::mul::lemma_mul_is_commutative(new_rin as int, new_rout as int);
        }
        Ok(
            (
                SwapDelta {
                    amount: amount_out,
                    first_asset_pool: new_rout,
                    second_asset_pool: new_rin,
                },
                fee_data,
            ),
        )
    }

    /// Rejects a payout of the first asset that falls below the caller's
    /// slippage bound.
    pub fn ensure_first_asset_amount(&self, amount: u128, min_amount: u128) -> (r: Result<
        (),
        Error,
    >)
        ensures
            r is Ok <==> amount >= min_amount,
            r is Err ==> r == Err::<(), Error>(Error::FirstAssetAmountBelowExpectation),
    {
        if amount >= min_amount {
            Ok(())
        } else {
            Err(Error::FirstAssetAmountBelowExpectation)
        }
    }

    /// Rejects a payout of the second asset that falls below the caller's
    /// slippage bound.
    pub fn ensure_second_asset_amount(&self, amount: u128, min_amount: u128) -> (r: Result<
        (),
        Error,
    >)
        ensures
            r is Ok <==> amount >= min_amount,
            r is Err ==> r == Err::<(), Error>(Error::SecondAssetAmountBelowExpectation),
    {
        if amount >= min_amount {
            Ok(())
        } else {
            Err(Error::SecondAssetAmountBelowExpectation)
        }
    }

    /// Commits new reserve values and recomputes the cached invariant from
    /// them; the share table is untouched.
    pub fn update_pools(&mut self, first_asset_pool: u128, second_asset_pool: u128)
        requires
            old(self).wf(),
            old(self).is_active(),
            first_asset_pool >= 1,
            second_asset_pool >= 1,
            first_asset_pool * second_asset_pool <= u128::MAX,
        ensures
            final(self).wf(),
            final(self).is_active(),
            final(self).first_asset_pool == first_asset_pool,
            final(self).second_asset_pool == second_asset_pool,
            final(self).invariant == first_asset_pool * second_asset_pool,
            final(self).total_shares == old(self).total_shares,
            final(self).shares@ == old(self).shares@,
    {
        proof {
            assert(first_asset_pool * second_asset_pool >= 1) by (nonlinear_arith)
                requires
                    first_asset_pool >= 1,
                    second_asset_pool >= 1,
            ;
        }
        let inv = first_asset_pool * second_asset_pool;
        self.first_asset_pool = first_asset_pool;
        self.second_asset_pool = second_asset_pool;
        self.invariant = inv;
    }

    /// Cost of minting `shares` new shares, one amount per side, rounded
    /// up so rounding can only favor the pool.
    pub fn calculate_invest_costs(&self, shares: u128) -> (r: Result<(u128, u128), Error>)
        requires
            self.wf(),
        ensures
            self.total_shares == 0 ==> r == Err::<(u128, u128), Error>(Error::TotalSharesNotNull),
            self.total_shares > 0 ==> {
                &&& (r is Ok <==> shares * self.first_asset_pool + self.total_shares - 1
                    <= u128::MAX && shares * self.second_asset_pool + self.total_shares - 1
                    <= u128::MAX)
                &&& (r is Err ==> r == Err::<(u128, u128), Error>(Error::OverflowOccured))
                &&& (r matches Ok((c1, c2)) ==> c1 == invest_cost(
                    shares as int,
                    self.first_asset_pool as int,
                    self.total_shares as int,
                ) && c2 == invest_cost(
                    shares as int,
                    self.second_asset_pool as int,
                    self.total_shares as int,
                ))
            },
            self.is_active() && shares > 0 ==> (r matches Ok((c1, c2)) ==> c1 >= 1 && c2 >= 1),
    {
        proof {
            if self.is_active() && shares > 0 {
                lemma_invest_cost_positive(
                    shares as int,
                    self.first_asset_pool as int,
                    self.total_shares as int,
                );
                lemma_invest_cost_positive(
                    shares as int,
                    self.second_asset_pool as int,
                    self.total_shares as int,
                );
            }
        }
        if self.total_shares == 0 {
            return Err(Error::TotalSharesNotNull);
        }
        let ts = self.total_shares;
        let p1 = match shares.checked_mul(self.first_asset_pool) {
            Option::None => {
                return Err(Error::OverflowOccured);
            },
            Option::Some(p) => p,
        };
        let s1 = match p1.checked_add(ts - 1) {
            Option::None => {
                return Err(Error::OverflowOccured);
            },
            Option::Some(s) => s,
        };
        let p2 = match shares.checked_mul(self.second_asset_pool) {
            Option::None => {
                return Err(Error::OverflowOccured);
            },
            Option::Some(p) => p,
        };
        let s2 = match p2.checked_add(ts - 1) {
            Option::None => {
                return Err(Error::OverflowOccured);
            },
            Option::Some(s) => s,
        };
        Ok((s1 / ts, s2 / ts))
    }

    /// Payout for burning `shares` shares, one amount per side, rounded
    /// down so rounding can only favor the pool.
    pub fn calculate_divest_costs(&self, shares: u128) -> (r: Result<(u128, u128), Error>)
        requires
            self.wf(),
        ensures
            self.total_shares == 0 ==> r == Err::<(u128, u128), Error>(Error::TotalSharesNotNull),
            self.total_shares > 0 ==> {
                &&& (r is Ok <==> shares * self.first_asset_pool <= u128::MAX && shares
                    * self.second_asset_pool <= u128::MAX)
                &&& (r is Err ==> r == Err::<(u128, u128), Error>(Error::OverflowOccured))
                &&& (r matches Ok((c1, c2)) ==> c1 == divest_cost(
                    shares as int,
                    self.first_asset_pool as int,
                    self.total_shares as int,
                ) && c2 == divest_cost(
                    shares as int,
                    self.second_asset_pool as int,
                    self.total_shares as int,
                ))
            },
    {
        if self.total_shares == 0 {
            return Err(Error::TotalSharesNotNull);
        }
        let ts = self.total_shares;
        let p1 = match shares.checked_mul(self.first_asset_pool) {
            Option::None => {
                return Err(Error::OverflowOccured);
            },
            Option::Some(p) => p,
        };
        let p2 = match shares.checked_mul(self.second_asset_pool) {
            Option::None => {
                return Err(Error::OverflowOccured);
            },
            Option::Some(p) => p,
        };
        Ok((p1 / ts, p2 / ts))
    }

    /// Checks that `account` owns at least `shares_burned` shares of this
    /// pool, telling apart owning none at all from owning too few.
    pub fn ensure_burned_shares(&self, account: u64, shares_burned: u128) -> (r: Result<
        (),
        Error,
    >)
        requires
            self.wf(),
        ensures
            r is Ok <==> self.shares_of(account) >= shares_burned,
            r == Err::<(), Error>(Error::DoesNotOwnShare) <==> self.shares_of(account) == 0
                && shares_burned > 0,
            r == Err::<(), Error>(Error::InsufficientShares) <==> 0 < self.shares_of(account)
                < shares_burned,
    {
        let owned = self.shares_of_account(account);
        if owned >= shares_burned {
            Ok(())
        } else if owned == 0 {
            Err(Error::DoesNotOwnShare)
        } else {
            Err(Error::InsufficientShares)
        }
    }

    /// Adds the two deposits to the reserves, mints `shares` new shares to
    /// `account`, and recomputes the invariant. Fails, changing nothing,
    /// when `shares` is zero or any resulting amount leaves the balance
    /// type.
    pub fn invest(
        &mut self,
        first_asset_cost: u128,
        second_asset_cost: u128,
        shares: u128,
        account: u64,
    ) -> (r: Result<(), Error>)
        requires
            old(self).wf(),
            old(self).is_active(),
        ensures
            final(self).wf(),
            r is Err ==> *final(self) == *old(self),
            shares == 0 ==> r == Err::<(), Error>(Error::InvalidShares),
            shares > 0 ==> {
                &&& (r is Ok <==> old(self).first_asset_pool + first_asset_cost <= u128::MAX
                    && old(self).second_asset_pool + second_asset_cost <= u128::MAX && old(self).total_shares + shares <= u128::MAX && (old(self).first_asset_pool
                    + first_asset_cost) * (old(self).second_asset_pool + second_asset_cost)
                    <= u128::MAX)
                &&& (r is Err ==> r == Err::<(), Error>(Error::OverflowOccured))
            },
            r is Ok ==> {
                &&& final(self).is_active()
                &&& final(self).first_asset_pool == old(self).first_asset_pool + first_asset_cost
                &&& final(self).second_asset_pool == old(self).second_asset_pool
                    + second_asset_cost
                &&& final(self).invariant == final(self).first_asset_pool as int * final(self).second_asset_pool as int
                &&& final(self).total_shares == old(self).total_shares + shares
                &&& final(self).shares_of(account) == old(self).shares_of(account) + shares
                &&& forall|a: u64|
                    a != account ==> final(self).shares_of(a) == old(self).shares_of(a)
            },
    {
        if shares == 0 {
            return Err(Error::InvalidShares);
        }
        let new_first = match self.first_asset_pool.checked_add(first_asset_cost) {
            Option::None => {
                return Err(Error::OverflowOccured);
            },
            Option::Some(v) => v,
        };
        let new_second = match self.second_asset_pool.checked_add(second_asset_cost) {
            Option::None => {
                return Err(Error::OverflowOccured);
            },
            Option::Some(v) => v,
        };
        let new_total = match self.total_shares.checked_add(shares) {
            Option::None => {
                return Err(Error::OverflowOccured);
            },
            Option::Some(v) => v,
        };
        let new_inv = match new_first.checked_mul(new_second) {
            Option::None => {
                return Err(Error::OverflowOccured);
            },
            Option::Some(v) => v,
        };
        proof {
            assert(new_first * new_second >= 1) by (nonlinear_arith)
                requires
                    new_first >= 1,
                    new_second >= 1,
            ;
            lemma_shares_of_le_sum(self.shares@, account);
        }
        let owned = self.shares_of_account(account);
        self.first_asset_pool = new_first;
        self.second_asset_pool = new_second;
        self.invariant = new_inv;
        self.total_shares = new_total;
        self.set_share(account, owned + shares);
        Ok(())
    }

    /// Pays the two proportional amounts out of the reserves, burns
    /// `shares_burned` of `account`'s shares, and recomputes the
    /// invariant. Burning every outstanding share returns the slot to the
    /// dormant all-zero state.
    pub fn divest(
        &mut self,
        first_asset_cost: u128,
        second_asset_cost: u128,
        shares_burned: u128,
        account: u64,
    )
        requires
            old(self).wf(),
            old(self).is_active(),
            shares_burned <= old(self).shares_of(account),
            first_asset_cost == divest_cost(
                shares_burned as int,
                old(self).first_asset_pool as int,
                old(self).total_shares as int,
            ),
            second_asset_cost == divest_cost(
                shares_burned as int,
                old(self).second_asset_pool as int,
                old(self).total_shares as int,
            ),
        ensures
            final(self).wf(),
            final(self).first_asset_pool == old(self).first_asset_pool - first_asset_cost,
            final(self).second_asset_pool == old(self).second_asset_pool - second_asset_cost,
            final(self).invariant == final(self).first_asset_pool as int * final(self).second_asset_pool as int,
            final(self).total_shares == old(self).total_shares - shares_burned,
            final(self).shares_of(account) == old(self).shares_of(account) - shares_burned,
            forall|a: u64| a != account ==> final(self).shares_of(a) == old(self).shares_of(a),
            shares_burned == old(self).total_shares ==> !final(self).is_active(),
            shares_burned < old(self).total_shares ==> final(self).is_active(),
    {
        proof {
            lemma_shares_of_le_sum(self.shares@, account);
            lemma_divest_cost_bounds(
                shares_burned as int,
                self.first_asset_pool as int,
                self.total_shares as int,
            );
            lemma_divest_cost_bounds(
                shares_burned as int,
                self.second_asset_pool as int,
                self.total_shares as int,
            );
        }
        let new_first = self.first_asset_pool - first_asset_cost;
        let new_second = self.second_asset_pool - second_asset_cost;
        proof {
            assert(new_first * new_second <= self.first_asset_pool * self.second_asset_pool)
                by (nonlinear_arith)
                requires
                    0 <= new_first <= self.first_asset_pool,
                    0 <= new_second <= self.second_asset_pool,
            ;
            if shares_burned < self.total_shares {
                assert(new_first * new_second >= 1) by (nonlinear_arith)
                    requires
                        new_first >= 1,
                        new_second >= 1,
                ;
            }
        }
        let new_inv = new_first * new_second;
        let owned = self.shares_of_account(account);
        self.first_asset_pool = new_first;
        self.second_asset_pool = new_second;
        self.invariant = new_inv;
        self.total_shares = self.total_shares - shares_burned;
        self.set_share(account, owned - shares_burned);
    }
}

/// Round-trip conservation: investing `shares` into a live pool and
/// immediately burning the same `shares` pays back at most what was
/// deposited on each side, and restores the outstanding share total, so
/// the round trip can only favor the pool.
pub proof fn lemma_invest_divest_round_trip(ex: Exchange, shares: u128)
    requires
        ex.wf(),
        ex.is_active(),
        shares >= 1,
    ensures
        ({
            let c1 = invest_cost(
                shares as int,
                ex.first_asset_pool as int,
                ex.total_shares as int,
            );
            let d1 = divest_cost(
                shares as int,
                ex.first_asset_pool + c1,
                ex.total_shares + shares,
            );
            d1 <= c1 && ex.first_asset_pool <= ex.first_asset_pool + c1 - d1
        }),
        ({
            let c2 = invest_cost(
                shares as int,
                ex.second_asset_pool as int,
                ex.total_shares as int,
            );
            let d2 = divest_cost(
                shares as int,
                ex.second_asset_pool + c2,
                ex.total_shares + shares,
            );
            d2 <= c2 && ex.second_asset_pool <= ex.second_asset_pool + c2 - d2
        }),
        (ex.total_shares + shares) - shares == ex.total_shares,
{
    crate::math::lemma_divest_le_invest(
        shares as int,
        ex.first_asset_pool as int,
        ex.total_shares as int,
    );
    crate::math::lemma_divest_le_invest(
        shares as int,
        ex.second_asset_pool as int,
        ex.total_shares as int,
    );
}

/// Prices one swap of `amount_in` of the input-side asset against the two
/// reserves, with the fee split between pool and treasury. Returns the
/// floored output, both post-swap reserves, and the treasury fee with its
/// account. Read-only; fails exactly when a checked step overflows.
fn compute_swap(
    reserve_in: u128,
    reserve_out: u128,
    amount_in: u128,
    fee_nom: u128,
    fee_den: u128,
    treasury: &Option<DexTreasury>,
) -> (r: Result<(u128, u128, u128, Option<(u128, u64)>), Error>)
    requires
        reserve_in >= 1,
        reserve_out >= 1,
        fee_den > 0,
        fee_nom <= fee_den,
        *treasury matches Option::Some(t) ==> t.wf(),
    ensures
        r is Ok <==> swap_feasible(reserve_in, reserve_out, amount_in, fee_nom, fee_den, *treasury),
        r is Err ==> r == Err::<(u128, u128, u128, Option<(u128, u64)>), Error>(
            Error::OverflowOccured,
        ),
        r matches Ok((amount_out, new_rin, new_rout, fee_data)) ==> {
            &&& amount_out == spec_amount_out(reserve_in, reserve_out, amount_in, fee_nom, fee_den)
            &&& new_rin == spec_new_reserve_in(reserve_in, amount_in, fee_nom, fee_den, *treasury)
            &&& new_rout == spec_new_reserve_out(
                reserve_in,
                reserve_out,
                amount_in,
                fee_nom,
                fee_den,
            )
            &&& new_rin * new_rout >= reserve_in * reserve_out
            &&& new_rin >= 1
            &&& new_rout >= 1
            &&& amount_out < reserve_out
            &&& (*treasury is None ==> fee_data is None)
            &&& (*treasury matches Option::Some(t) ==> fee_data == Option::Some(
                (spec_treasury_fee(amount_in, fee_nom, fee_den, *treasury) as u128, t.dex_account),
            ))
            &&& spec_treasury_fee(amount_in, fee_nom, fee_den, *treasury) <= amount_in
        },
{
    let fee_gross = match amount_in.checked_mul(fee_nom) {
        Option::None => {
            return Err(Error::OverflowOccured);
        },
        Option::Some(p) => p,
    };
    let fee_total = fee_gross / fee_den;
    proof {
        lemma_fee_le_amount(amount_in as int, fee_nom as int, fee_den as int);
    }
    let net = amount_in - fee_total;
    let numer = match net.checked_mul(reserve_out) {
        Option::None => {
            return Err(Error::OverflowOccured);
        },
        Option::Some(p) => p,
    };
    let denom = match reserve_in.checked_add(net) {
        Option::None => {
            return Err(Error::OverflowOccured);
        },
        Option::Some(d) => d,
    };
    let amount_out = numer / denom;
    proof {
        lemma_swap_output_bounds(reserve_in as int, reserve_out as int, net as int);
    }
    let (treasury_fee, fee_data): (u128, Option<(u128, u64)>) = match treasury {
        Option::None => (0, Option::None),
        Option::Some(t) => {
            let tf_gross = match fee_total.checked_mul(t.treasury_fee_rate_nominator) {
                Option::None => {
                    return Err(Error::OverflowOccured);
                },
                Option::Some(p) => p,
            };
            let tf = tf_gross / t.treasury_fee_rate_denominator;
            proof {
                lemma_fee_le_amount(
                    fee_total as int,
                    t.treasury_fee_rate_nominator as int,
                    t.treasury_fee_rate_denominator as int,
                );
            }
            (tf, Option::Some((tf, t.dex_account)))
        },
    };
    let gross_in = match reserve_in.checked_add(amount_in) {
        Option::None => {
            return Err(Error::OverflowOccured);
        },
        Option::Some(g) => g,
    };
    let new_rin = gross_in - treasury_fee;
    let new_rout = reserve_out - amount_out;
    if let Option::None = new_rin.checked_mul(new_rout) {
        return Err(Error::OverflowOccured);
    }
    proof {
        lemma_invariant_monotone(
            reserve_in as int,
            reserve_out as int,
            net as int,
            fee_total - treasury_fee,
        );
    }
    Ok((amount_out, new_rin, new_rout, fee_data))
}

} // verus!
