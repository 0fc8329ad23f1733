use vstd::prelude::*;

verus! {

/// One account's share balance in a pool. Rows persist at zero once
/// created rather than being removed.
#[derive(Clone, Copy, PartialEq, Eq, Structural, Debug)]
pub struct ShareRow {
    pub account: u64,
    pub shares: u128,
}

/// No two rows name the same account.
pub open spec fn distinct_accounts(rows: Seq<ShareRow>) -> bool {
    forall|i: int, j: int|
        0 <= i < j < rows.len() ==> rows[i].account != rows[j].account
}

/// The share balance of `account`: the amount of its row, or zero when it
/// has none.
pub open spec fn shares_of_seq(rows: Seq<ShareRow>, account: u64) -> u128
    decreases rows.len(),
{
    if rows.len() == 0 {
        0
    } else if rows[0].account == account {
        rows[0].shares
    } else {
        shares_of_seq(rows.drop_first(), account)
    }
}

/// Sum of all share balances in the table.
pub open spec fn sum_shares(rows: Seq<ShareRow>) -> int
    decreases rows.len(),
{
    if rows.len() == 0 {
        0
    } else {
        rows[0].shares + sum_shares(rows.drop_first())
    }
}

pub proof fn lemma_sum_nonneg(rows: Seq<ShareRow>)
    ensures
        sum_shares(rows) >= 0,
    decreases rows.len(),
{
    if rows.len() > 0 {
        lemma_sum_nonneg(rows.drop_first());
    }
}

/// No single balance exceeds the sum of all balances.
pub proof fn lemma_shares_of_le_sum(rows: Seq<ShareRow>, account: u64)
    ensures
        shares_of_seq(rows, account) <= sum_shares(rows),
    decreases rows.len(),
{
    if rows.len() > 0 {
        if rows[0].account == account {
            lemma_sum_nonneg(rows.drop_first());
        } else {
            lemma_shares_of_le_sum(rows.drop_first(), account);
        }
    }
}

/// In a table without duplicate accounts, the balance of the account named
/// by row `i` is that row's amount.
pub proof fn lemma_shares_at_index(rows: Seq<ShareRow>, i: int)
    requires
        distinct_accounts(rows),
        0 <= i < rows.len(),
    ensures
        shares_of_seq(rows, rows[i].account) == rows[i].shares,
    decreases rows.len(),
{
    if i > 0 {
        assert(rows.drop_first()[i - 1] == rows[i]);
        lemma_shares_at_index(rows.drop_first(), i - 1);
    }
}

/// An account no row names has a balance of zero.
pub proof fn lemma_shares_absent(rows: Seq<ShareRow>, account: u64)
    requires
        forall|i: int| 0 <= i < rows.len() ==> rows[i].account != account,
    ensures
        shares_of_seq(rows, account) == 0,
    decreases rows.len(),
{
    if rows.len() > 0 {
        lemma_shares_absent(rows.drop_first(), account);
    }
}

/// Overwriting row `i` with a row for the same account leaves every other
/// account's balance unchanged.
pub proof fn lemma_shares_update_other(rows: Seq<ShareRow>, i: int, row: ShareRow, account: u64)
    requires
        0 <= i < rows.len(),
        rows[i].account == row.account,
        account != row.account,
    ensures
        shares_of_seq(rows.update(i, row), account) == shares_of_seq(rows, account),
    decreases rows.len(),
{
    let updated = rows.update(i, row);
    if i == 0 {
        assert(updated.drop_first() =~= rows.drop_first());
    } else {
        assert(updated.drop_first() =~= rows.drop_first().update(i - 1, row));
        lemma_shares_update_other(rows.drop_first(), i - 1, row, account);
    }
}

/// Appending a row leaves every other account's balance unchanged.
pub proof fn lemma_shares_push_other(rows: Seq<ShareRow>, row: ShareRow, account: u64)
    requires
        account != row.account,
    ensures
        shares_of_seq(rows.push(row), account) == shares_of_seq(rows, account),
    decreases rows.len(),
{
    if rows.len() == 0 {
        assert(rows.push(row)[0] == row);
        assert(rows.push(row).drop_first() =~= rows);
    } else {
        assert(rows.push(row)[0] == rows[0]);
        assert(rows.push(row).drop_first() =~= rows.drop_first().push(row));
        lemma_shares_push_other(rows.drop_first(), row, account);
    }
}

pub proof fn lemma_sum_update(rows: Seq<ShareRow>, i: int, row: ShareRow)
    requires
        0 <= i < rows.len(),
    ensures
        sum_shares(rows.update(i, row)) == sum_shares(rows) - rows[i].shares + row.shares,
    decreases rows.len(),
{
    let updated = rows.update(i, row);
    if i == 0 {
        assert(updated.drop_first() =~= rows.drop_first());
    } else {
        assert(updated.drop_first() =~= rows.drop_first().update(i - 1, row));
        lemma_sum_update(rows.drop_first(), i - 1, row);
    }
}

pub proof fn lemma_sum_push(rows: Seq<ShareRow>, row: ShareRow)
    ensures
        sum_shares(rows.push(row)) == sum_shares(rows) + row.shares,
    decreases rows.len(),
{
    if rows.len() == 0 {
        assert(rows.push(row)[0] == row);
        assert(rows.push(row).drop_first() =~= rows);
    } else {
        assert(rows.push(row)[0] == rows[0]);
        assert(rows.push(row).drop_first() =~= rows.drop_first().push(row));
        lemma_sum_push(rows.drop_first(), row);
    }
}

} // verus!
