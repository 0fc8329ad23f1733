use vstd::prelude::*;

use crate::asset::Asset;

verus! {

/// One account's holding of one asset. Rows for the native currency model
/// the external currency module's free balances; rows for bridged assets
/// are this engine's own ledger. Rows persist at zero once created.
#[derive(Clone, Copy, PartialEq, Eq, Structural, Debug)]
pub struct BalanceRow {
    pub account: u64,
    pub asset: Asset,
    pub amount: u128,
}

/// No two rows name the same (account, asset) pair.
pub open spec fn distinct_balance_keys(rows: Seq<BalanceRow>) -> bool {
    forall|i: int, j: int|
        0 <= i < j < rows.len() ==> !(rows[i].account == rows[j].account && rows[i].asset
            == rows[j].asset)
}

/// The holding of `account` in `asset`: the amount of its row, or zero
/// when it has none.
pub open spec fn balance_of_seq(rows: Seq<BalanceRow>, account: u64, asset: Asset) -> u128
    decreases rows.len(),
{
    if rows.len() == 0 {
        0
    } else if rows[0].account == account && rows[0].asset == asset {
        rows[0].amount
    } else {
        balance_of_seq(rows.drop_first(), account, asset)
    }
}

/// In a ledger without duplicate keys, the holding under row `i`'s key is
/// that row's amount.
pub proof fn lemma_balance_at_index(rows: Seq<BalanceRow>, i: int)
    requires
        distinct_balance_keys(rows),
        0 <= i < rows.len(),
    ensures
        balance_of_seq(rows, rows[i].account, rows[i].asset) == rows[i].amount,
    decreases rows.len(),
{
    if i > 0 {
        assert(rows.drop_first()[i - 1] == rows[i]);
        lemma_balance_at_index(rows.drop_first(), i - 1);
    }
}

/// A key no row carries has a holding of zero.
pub proof fn lemma_balance_absent(rows: Seq<BalanceRow>, account: u64, asset: Asset)
    requires
        forall|i: int|
            0 <= i < rows.len() ==> !(rows[i].account == account && rows[i].asset == asset),
    ensures
        balance_of_seq(rows, account, asset) == 0,
    decreases rows.len(),
{
    if rows.len() > 0 {
        lemma_balance_absent(rows.drop_first(), account, asset)
    }
}

/// Overwriting row `i` with a row for the same key leaves every other
/// key's holding unchanged.
pub proof fn lemma_balance_update_other(
    rows: Seq<BalanceRow>,
    i: int,
    row: BalanceRow,
    account: u64,
    asset: Asset,
)
    requires
        0 <= i < rows.len(),
        rows[i].account == row.account,
        rows[i].asset == row.asset,
        !(account == row.account && asset == row.asset),
    ensures
        balance_of_seq(rows.update(i, row), account, asset) == balance_of_seq(
            rows,
            account,
            asset,
        ),
    decreases rows.len(),
{
    let updated = rows.update(i, row);
    if i == 0 {
        assert(updated.drop_first() =~= rows.drop_first());
    } else {
        assert(updated.drop_first() =~= rows.drop_first().update(i - 1, row));
        lemma_balance_update_other(rows.drop_first(), i - 1, row, account, asset);
    }
}

/// Appending a row leaves every other key's holding unchanged.
pub proof fn lemma_balance_push_other(
    rows: Seq<BalanceRow>,
    row: BalanceRow,
    account: u64,
    asset: Asset,
)
    requires
        !(account == row.account && asset == row.asset),
    ensures
        balance_of_seq(rows.push(row), account, asset) == balance_of_seq(rows, account, asset),
    decreases rows.len(),
{
    if rows.len() == 0 {
        assert(rows.push(row)[0] == row);
        assert(rows.push(row).drop_first() =~= rows);
    } else {
        assert(rows.push(row)[0] == rows[0]);
        assert(rows.push(row).drop_first() =~= rows.drop_first().push(row));
        lemma_balance_push_other(rows.drop_first(), row, account, asset);
    }
}

} // verus!
