//! An escrow and conditional-redemption engine: single-use claim keys guard
//! either one linkdrop deposit or a red-envelope pool shared among a bounded
//! number of claimants. The host ledger is reached only through plain values
//! handed in (caller, deposit, entropy, callback outcome) and the actions
//! handed back.

pub mod store;
pub mod allocator;
pub mod error;
pub mod envelope;
pub mod account;
pub mod contract;
pub mod laws;
