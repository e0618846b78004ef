//! A two-party conditional asset swap ("escrow").
//!
//! A maker deposits a quantity of one fungible asset into a dedicated
//! custody vault and records the quantity of another asset wanted in
//! return.  A taker may later fulfill that condition to complete the
//! swap, or the maker may cancel and reclaim the deposit.  The library
//! models the ledger state (balances, records, vaults) explicitly and
//! proves the lifecycle state machine correct against that model.

pub mod errors;
pub mod instructions;
pub mod state;
pub mod vault;
