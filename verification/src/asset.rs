use vstd::prelude::*;

verus! {

/// A tradeable asset: either the chain's own settlement currency or an
/// asset bridged in from another chain, identified by an unsigned id.
#[derive(Clone, Copy, PartialEq, Eq, Structural, Debug)]
pub enum Asset {
    MainNetworkCurrency,
    ParachainAsset(u64),
}

impl Default for Asset {
    fn default() -> (r: Self)
        ensures
            r == Asset::MainNetworkCurrency,
    {
        Asset::MainNetworkCurrency
    }
}

/// Strict total order over assets: the native currency sorts before every
/// bridged asset, and bridged assets sort by id.
pub open spec fn asset_lt(a: Asset, b: Asset) -> bool {
    match (a, b) {
        (Asset::MainNetworkCurrency, Asset::ParachainAsset(_)) => true,
        (Asset::ParachainAsset(i), Asset::ParachainAsset(j)) => i < j,
        _ => false,
    }
}

/// The smaller asset of an unordered pair under `asset_lt`.
pub open spec fn canonical_low(a: Asset, b: Asset) -> Asset {
    if asset_lt(b, a) {
        b
    } else {
        a
    }
}

/// The larger asset of an unordered pair under `asset_lt`.
pub open spec fn canonical_high(a: Asset, b: Asset) -> Asset {
    if asset_lt(b, a) {
        a
    } else {
        b
    }
}

/// Whether putting `(a, b)` in canonical order reverses the caller's order.
pub open spec fn order_swapped(a: Asset, b: Asset) -> bool {
    asset_lt(b, a)
}

/// A pair is a valid pool key only when its two assets differ.
pub open spec fn valid_pair(low: Asset, high: Asset) -> bool {
    asset_lt(low, high)
}

/// Canonicalizing an unordered pair of distinct assets does not depend on
/// the order the caller names them in, and the two orders report opposite
/// `swapped` flags.
pub proof fn lemma_canonical_pair_symmetric(a: Asset, b: Asset)
    requires
        a != b,
    ensures
        canonical_low(a, b) == canonical_low(b, a),
        canonical_high(a, b) == canonical_high(b, a),
        order_swapped(a, b) == !order_swapped(b, a),
        valid_pair(canonical_low(a, b), canonical_high(a, b)),
{
}

/// Exact equality test on assets.
pub fn asset_eq(a: Asset, b: Asset) -> (r: bool)
    ensures
        r == (a == b),
{
    match (a, b) {
        (Asset::MainNetworkCurrency, Asset::MainNetworkCurrency) => true,
        (Asset::ParachainAsset(i), Asset::ParachainAsset(j)) => i == j,
        _ => false,
    }
}

/// Exact comparison under the canonical asset order.
pub fn asset_lt_exec(a: Asset, b: Asset) -> (r: bool)
    ensures
        r == asset_lt(a, b),
{
    match (a, b) {
        (Asset::MainNetworkCurrency, Asset::ParachainAsset(_)) => true,
        (Asset::ParachainAsset(i), Asset::ParachainAsset(j)) => i < j,
        _ => false,
    }
}

} // verus!
