//! Settlement engine for leveraged positions backed by per-instrument
//! liquidity pools: origination and profit fees, position sizing, the
//! profit / loss / zero settlement algorithm, pool rebalancing and the
//! administrative recovery path for corrupted records.
pub mod address;
pub mod bytes;
pub mod error;
pub mod fees;
pub mod instruction;
pub mod lifecycle;
pub mod record;
pub mod settlement;
pub mod symbol;
