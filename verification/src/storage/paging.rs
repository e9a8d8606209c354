//! How many items one request may ask for, and which ones it gets.

use vstd::prelude::*;
use crate::ledger::Version;
use crate::storage::error::AptosDbError;

verus! {

/// The maximum number of items that one request may ask for.
pub const MAX_LIMIT: u64 = 5000;

/// What asking for too many items gives.
pub open spec fn spec_error_if_too_many_requested(num_requested: u64, max_allowed: u64) -> Result<
    (),
    AptosDbError,
> {
    if num_requested > max_allowed {
        Err(AptosDbError::TooManyRequested(num_requested, max_allowed))
    } else {
        Ok(())
    }
}

/// Refuses a request for more than `max_allowed` items.
pub fn error_if_too_many_requested(num_requested: u64, max_allowed: u64) -> (r: Result<
    (),
    AptosDbError,
>)
    ensures
        r == spec_error_if_too_many_requested(num_requested, max_allowed),
{
    if num_requested > max_allowed {
        Err(AptosDbError::TooManyRequested(num_requested, max_allowed))
    } else {
        Ok(())
    }
}

/// Some consecutive versions.
#[derive(Clone, Copy, Debug, PartialEq, Eq)]
pub struct VersionRange {
    /// The first version.
    pub start: Version,
    /// The number of versions.
    pub count: u64,
}

impl VersionRange {
    /// The version after the last one.
    pub open spec fn spec_end(self) -> int {
        self.start + self.count
    }

    /// Whether the version is in the range.
    pub open spec fn contains(self, version: int) -> bool {
        self.start <= version < self.spec_end()
    }

    /// Returns the version after the last one.
    pub fn end(&self) -> (r: Version)
        requires
            self.spec_end() <= u64::MAX,
        ensures
            r == self.spec_end(),
    {
        self.start + self.count
    }
}

/// The smaller of two numbers.
pub open spec fn least(a: int, b: int) -> int {
    if a <= b {
        a
    } else {
        b
    }
}

/// The number of versions that a page of at most `limit` versions from `start_version` up to the
/// version of the ledger has.
pub open spec fn page_len(start_version: Version, limit: u64, ledger_version: Version) -> int {
    if start_version > ledger_version {
        0
    } else {
        least(limit as int, ledger_version - start_version + 1)
    }
}

/// Whether the number of versions up to the version of the ledger, and the version after the page,
/// are numbers of 64 bits.
pub open spec fn page_fits(start_version: Version, limit: u64, ledger_version: Version) -> bool {
    &&& ledger_version - start_version + 1 <= u64::MAX
    &&& start_version + page_len(start_version, limit, ledger_version) <= u64::MAX
}

/// The versions that are answered to a request for `limit` transactions: none where there are none
/// or none are asked for, and otherwise as many as there are, up to the limit.
pub open spec fn spec_transaction_page(
    start_version: Version,
    limit: u64,
    ledger_version: Version,
) -> Result<Option<VersionRange>, AptosDbError> {
    if limit > MAX_LIMIT {
        Err(AptosDbError::TooManyRequested(limit, MAX_LIMIT))
    } else if page_len(start_version, limit, ledger_version) == 0 {
        Ok(None)
    } else {
        Ok(
            Some(
                VersionRange {
                    start: start_version,
                    count: page_len(start_version, limit, ledger_version) as u64,
                },
            ),
        )
    }
}

/// Finds the versions that are answered to a request for transactions or their outputs.
pub fn transaction_page(start_version: Version, limit: u64, ledger_version: Version) -> (r: Result<
    Option<VersionRange>,
    AptosDbError,
>)
    requires
        0 < limit <= MAX_LIMIT && start_version <= ledger_version ==> page_fits(
            start_version,
            limit,
            ledger_version,
        ),
    ensures
        r == spec_transaction_page(start_version, limit, ledger_version),
        r matches Ok(Some(range)) ==> range.spec_end() <= u64::MAX,
{
    if let Err(e) = error_if_too_many_requested(limit, MAX_LIMIT) {
        return Err(e);
    }
    if start_version > ledger_version || limit == 0 {
        return Ok(None);
    }
    let available: u64 = ledger_version - start_version + 1;
    let count: u64 = if limit <= available {
        limit
    } else {
        available
    };
    Ok(Some(VersionRange { start: start_version, count }))
}

/// A page starts at the version asked for, has at least one version and not more than the limit,
/// and does not go beyond the ledger. It ends early only where the ledger ends.
pub proof fn page_is_cut_to_ledger(
    start_version: Version,
    limit: u64,
    ledger_version: Version,
    page: VersionRange,
)
    requires
        spec_transaction_page(start_version, limit, ledger_version) == Ok::<
            Option<VersionRange>,
            AptosDbError,
        >(Some(page)),
    ensures
        page.start == start_version,
        1 <= page.count <= limit <= MAX_LIMIT,
        page.spec_end() <= ledger_version + 1,
        page.count < limit ==> page.spec_end() == ledger_version + 1,
        forall|version: int| #[trigger]
            page.contains(version) <==> start_version <= version <= ledger_version && version
                < start_version + limit,
{
}

/// The pages that are answered to requests that each go on where the page before ended.
pub open spec fn all_pages(start_version: Version, limit: u64, ledger_version: Version) -> Seq<
    VersionRange,
>
    decreases ledger_version + 1 - start_version,
{
    match spec_transaction_page(start_version, limit, ledger_version) {
        Ok(Some(page)) => if page.count > 0 && page.spec_end() <= ledger_version {
            seq![page] + all_pages(page.spec_end() as u64, limit, ledger_version)
        } else {
            seq![page]
        },
        _ => Seq::empty(),
    }
}

/// Requests that each go on where the page before ended get every version up to that of the ledger,
/// each of them once and in order.
pub proof fn pages_cover_ledger(start_version: Version, limit: u64, ledger_version: Version)
    requires
        0 < limit <= MAX_LIMIT,
        start_version <= ledger_version,
    ensures
        ({
            let pages = all_pages(start_version, limit, ledger_version);
            &&& pages.len() > 0
            &&& pages[0].start == start_version
            &&& pages.last().spec_end() == ledger_version + 1
            &&& forall|i: int|
                #![trigger pages[i]]
                0 <= i < pages.len() - 1 ==> pages[i].spec_end() == pages[i + 1].start
        }),
    decreases ledger_version + 1 - start_version,
{
    let pages = all_pages(start_version, limit, ledger_version);
    let page = VersionRange {
        start: start_version,
        count: page_len(start_version, limit, ledger_version) as u64,
    };
    if page.spec_end() <= ledger_version {
        let rest = all_pages(page.spec_end() as u64, limit, ledger_version);
        pages_cover_ledger(page.spec_end() as u64, limit, ledger_version);
        assert forall|i: int| #![trigger pages[i]] 0 <= i < pages.len() - 1 implies pages[i].spec_end()
            == pages[i + 1].start by {
            if i > 0 {
                assert(pages[i] == rest[i - 1] && pages[i + 1] == rest[i]);
            }
        }
    }
}

} // verus!
