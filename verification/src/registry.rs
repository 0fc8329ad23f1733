use vstd::prelude::*;

use crate::asset::Asset;
use crate::exchange::Exchange;

verus! {

/// One storage slot of the pool registry: a canonically ordered asset
/// pair and the pool kept under it.
pub struct PoolEntry {
    pub first_asset: Asset,
    pub second_asset: Asset,
    pub exchange: Exchange,
}

/// No two slots carry the same pair, so each unordered pair has exactly
/// one slot.
pub open spec fn distinct_pairs(entries: Seq<PoolEntry>) -> bool {
    forall|i: int, j: int|
        0 <= i < j < entries.len() ==> !(entries[i].first_asset == entries[j].first_asset
            && entries[i].second_asset == entries[j].second_asset)
}

/// The pool stored under a pair, if any slot carries it.
pub open spec fn pool_of_seq(entries: Seq<PoolEntry>, first: Asset, second: Asset) -> Option<
    Exchange,
>
    decreases entries.len(),
{
    if entries.len() == 0 {
        Option::None
    } else if entries[0].first_asset == first && entries[0].second_asset == second {
        Option::Some(entries[0].exchange)
    } else {
        pool_of_seq(entries.drop_first(), first, second)
    }
}

/// In a registry without duplicate pairs, the pool under slot `i`'s pair
/// is that slot's pool.
pub proof fn lemma_pool_at_index(entries: Seq<PoolEntry>, i: int)
    requires
        distinct_pairs(entries),
        0 <= i < entries.len(),
    ensures
        pool_of_seq(entries, entries[i].first_asset, entries[i].second_asset) == Option::Some(
            entries[i].exchange,
        ),
    decreases entries.len(),
{
    if i > 0 {
        assert(entries.drop_first()[i - 1] == entries[i]);
        lemma_pool_at_index(entries.drop_first(), i - 1);
    }
}

/// A pair no slot carries has no pool.
pub proof fn lemma_pool_absent(entries: Seq<PoolEntry>, first: Asset, second: Asset)
    requires
        forall|i: int|
            0 <= i < entries.len() ==> !(entries[i].first_asset == first
                && entries[i].second_asset == second),
    ensures
        pool_of_seq(entries, first, second) is None,
    decreases entries.len(),
{
    if entries.len() > 0 {
        lemma_pool_absent(entries.drop_first(), first, second)
    }
}

/// Overwriting slot `i` with a pool for the same pair leaves every other
/// pair's pool unchanged.
pub proof fn lemma_pool_update_other(
    entries: Seq<PoolEntry>,
    i: int,
    entry: PoolEntry,
    first: Asset,
    second: Asset,
)
    requires
        0 <= i < entries.len(),
        entries[i].first_asset == entry.first_asset,
        entries[i].second_asset == entry.second_asset,
        !(first == entry.first_asset && second == entry.second_asset),
    ensures
        pool_of_seq(entries.update(i, entry), first, second) == pool_of_seq(
            entries,
            first,
            second,
        ),
    decreases entries.len(),
{
    let updated = entries.update(i, entry);
    if i == 0 {
        assert(updated.drop_first() =~= entries.drop_first());
    } else {
        assert(updated.drop_first() =~= entries.drop_first().update(i - 1, entry));
        lemma_pool_update_other(entries.drop_first(), i - 1, entry, first, second);
    }
}

/// Appending a slot leaves every other pair's pool unchanged.
pub proof fn lemma_pool_push_other(
    entries: Seq<PoolEntry>,
    entry: PoolEntry,
    first: Asset,
    second: Asset,
)
    requires
        !(first == entry.first_asset && second == entry.second_asset),
    ensures
        pool_of_seq(entries.push(entry), first, second) == pool_of_seq(entries, first, second),
    decreases entries.len(),
{
    if entries.len() == 0 {
        assert(entries.push(entry)[0] == entry);
        assert(entries.push(entry).drop_first() =~= entries);
    } else {
        assert(entries.push(entry)[0] == entries[0]);
        assert(entries.push(entry).drop_first() =~= entries.drop_first().push(entry));
        lemma_pool_push_other(entries.drop_first(), entry, first, second);
    }
}

} // verus!
