//! A two-asset constant-product liquidity pool together with the multi-token
//! ledger it settles on.
//!
//! * [`ratio`] — parts-per-billion fractions, computed by `sp_runtime::Perbill`.
//! * [`table`] — keyed balances with an implicit zero, and their sums.
//! * [`traits`] — the ledger as the pool sees it: its model and its interface.
//! * [`erc20`] — a ledger that implements the interface.
//! * [`pricing`] — checked arithmetic and the price of a swap.
//! * [`settle`] — pairs of asset movements that happen together or not at all.
//! * [`dex`] — the pool and its operations.
//! * [`laws`] — what holds of the pool whatever is asked of it.
pub mod dex;
pub mod erc20;
pub mod laws;
pub mod pricing;
pub mod ratio;
pub mod settle;
pub mod table;
pub mod traits;
