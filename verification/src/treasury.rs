use vstd::prelude::*;

verus! {

/// Configuration of the protocol treasury: the account that collects the
/// treasury's share of swap fees, and the fraction of each total fee that
/// goes to it (`treasury_fee_rate_nominator / treasury_fee_rate_denominator`).
#[derive(Clone, Copy, PartialEq, Eq, Structural, Debug)]
pub struct DexTreasury {
    pub dex_account: u64,
    pub treasury_fee_rate_nominator: u128,
    pub treasury_fee_rate_denominator: u128,
}

impl DexTreasury {
    /// The fraction must be well formed: a positive denominator and a
    /// nominator of at most the denominator, so the treasury can never be
    /// owed more than the whole fee.
    pub open spec fn wf(self) -> bool {
        &&& self.treasury_fee_rate_denominator > 0
        &&& self.treasury_fee_rate_nominator <= self.treasury_fee_rate_denominator
    }

    pub fn new(
        dex_account: u64,
        treasury_fee_rate_nominator: u128,
        treasury_fee_rate_denominator: u128,
    ) -> (r: Self)
        requires
            treasury_fee_rate_denominator > 0,
            treasury_fee_rate_nominator <= treasury_fee_rate_denominator,
        ensures
            r == (DexTreasury {
                dex_account,
                treasury_fee_rate_nominator,
                treasury_fee_rate_denominator,
            }),
            r.wf(),
    {
        DexTreasury { dex_account, treasury_fee_rate_nominator, treasury_fee_rate_denominator }
    }
}

} // verus!
