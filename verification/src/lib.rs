//! Client account ledger: a fixed-point monetary type, a per-account
//! dispute state machine, and a keyed store of accounts.

pub mod account;
