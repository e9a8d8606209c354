//! Hash values and the hash functions of the ledger's authenticated data structures.

pub mod digests;
pub mod hash;
