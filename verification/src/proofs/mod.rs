//! Proofs that authenticate parts of the ledger against a trusted root hash.

pub mod accumulator;
pub mod accumulator_proof;
pub mod authentication;
pub mod collision;
pub mod consistency;
pub mod equality;
pub mod error;
pub mod growth;
pub mod membership;
pub mod merkle;
pub mod node;
pub mod outcomes;
pub mod parts;
pub mod range_proof;
pub mod sparse;
pub mod sparse_tree;
pub mod summary;
pub mod transaction;
