//! How the database is opened, and what it reports about the storage below it.

use vstd::prelude::*;
use vstd::string::{StrSliceExecFns, StringExecFns};
use crate::storage::error::AptosDbError;

verus! {

/// What is configured of the storage.
#[derive(Clone, Copy, Debug, PartialEq, Eq)]
pub struct RocksdbConfig {
    /// How many files may be open at a time, or `-1` for any number.
    pub max_open_files: i32,
    /// How large the write-ahead logs may be together, in bytes.
    pub max_total_wal_size: u64,
}

/// How the storage is opened.
#[derive(Clone, Copy, Debug, PartialEq, Eq)]
pub struct RocksdbOptions {
    /// How many files may be open at a time, or `-1` for any number.
    pub max_open_files: i32,
    /// How large the write-ahead logs may be together, in bytes.
    pub max_total_wal_size: u64,
    /// Whether the storage is created where it does not exist.
    pub create_if_missing: bool,
    /// Whether column families are created where they do not exist.
    pub create_missing_column_families: bool,
}

/// In which way the storage is opened.
#[derive(Clone, Copy, Debug, PartialEq, Eq)]
pub enum OpenMode {
    /// For reading and writing.
    ReadWrite,
    /// For reading only.
    Readonly,
    /// As a secondary that follows a primary.
    Secondary,
}

/// The options that come from the configuration alone.
pub open spec fn spec_gen_rocksdb_options(config: RocksdbConfig) -> RocksdbOptions {
    RocksdbOptions {
        max_open_files: config.max_open_files,
        max_total_wal_size: config.max_total_wal_size,
        create_if_missing: false,
        create_missing_column_families: false,
    }
}

/// Makes the options that come from the configuration alone.
pub fn gen_rocksdb_options(config: &RocksdbConfig) -> (r: RocksdbOptions)
    ensures
        r == spec_gen_rocksdb_options(*config),
{
    RocksdbOptions {
        max_open_files: config.max_open_files,
        max_total_wal_size: config.max_total_wal_size,
        create_if_missing: false,
        create_missing_column_families: false,
    }
}

/// How the storage is opened: only for writing is anything created that is missing, and a secondary
/// keeps all files open.
pub open spec fn spec_open_options(mode: OpenMode, config: RocksdbConfig) -> RocksdbOptions {
    match mode {
        OpenMode::ReadWrite => RocksdbOptions {
            create_if_missing: true,
            create_missing_column_families: true,
            ..spec_gen_rocksdb_options(config)
        },
        OpenMode::Readonly => spec_gen_rocksdb_options(config),
        OpenMode::Secondary => RocksdbOptions {
            max_open_files: -1i32,
            ..spec_gen_rocksdb_options(config)
        },
    }
}

/// Finds out how the storage is opened.
pub fn open_options(mode: OpenMode, config: &RocksdbConfig) -> (r: RocksdbOptions)
    ensures
        r == spec_open_options(mode, *config),
{
    let mut options: RocksdbOptions = gen_rocksdb_options(config);
    match mode {
        OpenMode::ReadWrite => {
            options.create_if_missing = true;
            options.create_missing_column_families = true;
        },
        OpenMode::Readonly => {},
        OpenMode::Secondary => {
            // Secondary needs `max_open_files = -1`.
            options.max_open_files = -1;
        },
    }
    options
}

/// How the database is opened.
#[derive(Clone, Copy, Debug, PartialEq, Eq)]
pub struct OpenPlan {
    /// In which way the storage is opened.
    pub mode: OpenMode,
    /// How the storage is opened.
    pub options: RocksdbOptions,
    /// Whether a pruner is started.
    pub starts_pruner: bool,
}

/// How the database is opened, or why it is not. A pruner is started exactly where the configuration
/// is not the one that keeps everything, and that one is needed for reading only.
pub open spec fn spec_open_plan(readonly: bool, no_pruning: bool, config: RocksdbConfig) -> Result<
    OpenPlan,
    AptosDbError,
> {
    if readonly && !no_pruning {
        Err(AptosDbError::PruneWhenReadonly)
    } else {
        let mode = if readonly {
            OpenMode::Readonly
        } else {
            OpenMode::ReadWrite
        };
        Ok(OpenPlan { mode, options: spec_open_options(mode, config), starts_pruner: !no_pruning })
    }
}

/// Finds out how the database is opened. `no_pruning` says whether the configuration of the pruner
/// is the one that keeps everything.
pub fn open_plan(readonly: bool, no_pruning: bool, config: &RocksdbConfig) -> (r: Result<
    OpenPlan,
    AptosDbError,
>)
    ensures
        r == spec_open_plan(readonly, no_pruning, *config),
{
    if !no_pruning && readonly {
        return Err(AptosDbError::PruneWhenReadonly);
    }
    let mode: OpenMode = if readonly {
        OpenMode::Readonly
    } else {
        OpenMode::ReadWrite
    };
    Ok(OpenPlan { mode, options: open_options(mode, config), starts_pruner: !no_pruning })
}

/// Finds out how the database is opened as a secondary, which never prunes.
pub fn secondary_open_plan(config: &RocksdbConfig) -> (r: OpenPlan)
    ensures
        r == (OpenPlan {
            mode: OpenMode::Secondary,
            options: spec_open_options(OpenMode::Secondary, *config),
            starts_pruner: false,
        }),
{
    OpenPlan {
        mode: OpenMode::Secondary,
        options: open_options(OpenMode::Secondary, config),
        starts_pruner: false,
    }
}

/// A database that is opened for reading only never prunes.
pub proof fn readonly_database_never_prunes(
    readonly: bool,
    no_pruning: bool,
    config: RocksdbConfig,
    plan: OpenPlan,
)
    requires
        spec_open_plan(readonly, no_pruning, config) == Ok::<OpenPlan, AptosDbError>(plan),
    ensures
        plan.starts_pruner <==> !no_pruning,
        readonly ==> !plan.starts_pruner,
{
}

/// The column families of the storage.
#[derive(Clone, Copy, Debug, PartialEq, Eq)]
pub enum ColumnFamily {
    /// Ledger infos.
    Default,
    EpochByVersion,
    EventAccumulator,
    EventByKey,
    EventByVersion,
    Event,
    JellyfishMerkleNode,
    LedgerCounters,
    StaleNodeIndex,
    StateValue,
    Transaction,
    TransactionAccumulator,
    TransactionByAccount,
    TransactionByHash,
    TransactionInfo,
    WriteSet,
}

/// All column families, in the order in which they are opened.
pub open spec fn spec_column_families() -> Seq<ColumnFamily> {
    seq![
        ColumnFamily::Default,
        ColumnFamily::EpochByVersion,
        ColumnFamily::EventAccumulator,
        ColumnFamily::EventByKey,
        ColumnFamily::EventByVersion,
        ColumnFamily::Event,
        ColumnFamily::JellyfishMerkleNode,
        ColumnFamily::LedgerCounters,
        ColumnFamily::StaleNodeIndex,
        ColumnFamily::StateValue,
        ColumnFamily::Transaction,
        ColumnFamily::TransactionAccumulator,
        ColumnFamily::TransactionByAccount,
        ColumnFamily::TransactionByHash,
        ColumnFamily::TransactionInfo,
        ColumnFamily::WriteSet,
    ]
}

/// Returns all column families, in the order in which they are opened.
pub fn column_families() -> (r: Vec<ColumnFamily>)
    ensures
        r@ == spec_column_families(),
{
    let families: Vec<ColumnFamily> = vec![
        ColumnFamily::Default,
        ColumnFamily::EpochByVersion,
        ColumnFamily::EventAccumulator,
        ColumnFamily::EventByKey,
        ColumnFamily::EventByVersion,
        ColumnFamily::Event,
        ColumnFamily::JellyfishMerkleNode,
        ColumnFamily::LedgerCounters,
        ColumnFamily::StaleNodeIndex,
        ColumnFamily::StateValue,
        ColumnFamily::Transaction,
        ColumnFamily::TransactionAccumulator,
        ColumnFamily::TransactionByAccount,
        ColumnFamily::TransactionByHash,
        ColumnFamily::TransactionInfo,
        ColumnFamily::WriteSet,
    ];
    assert(families@ =~= spec_column_families());
    families
}

/// `text` with underscores in place of dots.
pub open spec fn underscored(text: Seq<char>) -> Seq<char> {
    text.map_values(
        |c: char|
            if c == '.' {
                '_'
            } else {
                c
            },
    )
}

/// The name under which a property of the storage is reported.
pub open spec fn spec_property_name(property: Seq<char>) -> Seq<char> {
    "aptos_"@ + underscored(property)
}

/// Makes the name under which a property of the storage is reported.
pub fn aptos_rocksdb_property_name(property: &str) -> (r: String)
    ensures
        r@ == spec_property_name(property@),
{
    let mut name: String = "aptos_".to_owned();
    let len: usize = property.unicode_len();
    let mut i: usize = 0;
    proof {
        reveal_strlit("_");
    }
    assert(name@ =~= "aptos_"@ + underscored(property@.take(0)));
    while i < len
        invariant
            len == property@.len(),
            i <= len,
            name@ == "aptos_"@ + underscored(property@.take(i as int)),
            "_"@ == seq!['_'],
        decreases len - i,
    {
        if property.get_char(i) == '.' {
            name.append("_");
        } else {
            name.append(property.substring_char(i, i + 1));
        }
        assert(name@ =~= "aptos_"@ + underscored(property@.take(i + 1)));
        i = i + 1;
    }
    assert(property@.take(i as int) =~= property@);
    name
}

} // verus!
