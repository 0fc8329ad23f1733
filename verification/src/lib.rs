//! Accounting and pricing engine of a two-asset constant-product market
//! maker: liquidity pools keyed by a canonically ordered asset pair, a
//! per-account ledger of bridged-asset holdings, proportional ownership
//! shares, and swaps priced by the constant-product rule with a fee split
//! between the pool and a treasury account.
//!
//! Every public operation validates all of its preconditions against a
//! read-only snapshot and only then mutates the store, so a failed
//! operation leaves the store exactly as it was.

pub mod asset;
pub mod bridge;
pub mod dex;
pub mod errors;
pub mod exchange;
pub mod ledger;
pub mod math;
pub mod registry;
pub mod shares;
pub mod treasury;

pub use asset::Asset;
pub use errors::Error;
