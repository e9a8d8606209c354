//! Verified logic of an authenticated ledger database.

pub mod crypto;
pub mod ledger;
pub mod proofs;
pub mod storage;
