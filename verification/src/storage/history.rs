//! How far what is stored goes back.

use vstd::prelude::*;
use crate::ledger::Version;

verus! {

/// The version after genesis: what is before it is deleted with genesis.
pub const GENESIS_PRUNE_TARGET: Version = 1;

/// How many versions are deleted with genesis.
pub const GENESIS_PRUNE_MAX_VERSIONS: u64 = 1;

/// The timestamp of genesis, which is in no block.
pub const GENESIS_TIMESTAMP: u64 = 0;

/// Where the first version that can be read is found.
#[derive(Clone, Copy, Debug, PartialEq, Eq)]
pub enum FirstVersion {
    /// The pruner knows it.
    Known(Version),
    /// It is the first one that is stored.
    Stored,
}

/// Finds out where the first version that can be read is found. If pruning is enabled, it is the
/// least readable version of the pruner, whatever is still stored.
pub fn first_version(least_readable: Option<Version>) -> (r: FirstVersion)
    ensures
        r == match least_readable {
            Some(version) => FirstVersion::Known(version),
            None => FirstVersion::Stored,
        },
{
    match least_readable {
        Some(version) => FirstVersion::Known(version),
        None => FirstVersion::Stored,
    }
}

/// Returns the timestamp of a version, given that of the block that it is in.
pub fn version_timestamp(block_timestamp: Option<u64>) -> (r: u64)
    ensures
        r == match block_timestamp {
            Some(timestamp) => timestamp,
            None => GENESIS_TIMESTAMP,
        },
{
    match block_timestamp {
        Some(timestamp) => timestamp,
        None => GENESIS_TIMESTAMP,
    }
}

} // verus!
