//! Ledger infos at the ends of epochs.

use vstd::prelude::*;
use crate::ledger::{LedgerInfo, LedgerInfoWithSignatures, Version};
use crate::storage::error::AptosDbError;
use crate::storage::paging::least;

verus! {

/// The maximum number of epoch ending ledger infos in one answer.
pub const MAX_NUM_EPOCH_ENDING_LEDGER_INFO: usize = 100;

/// The ledger infos at the ends of consecutive epochs, and whether there are more.
#[derive(Debug)]
pub struct EpochChangeProof {
    pub ledger_info_with_sigs: Vec<LedgerInfoWithSignatures>,
    pub more: bool,
}

impl EpochChangeProof {
    /// Constructs an epoch change proof.
    pub fn new(ledger_info_with_sigs: Vec<LedgerInfoWithSignatures>, more: bool) -> (r: Self)
        ensures
            r.ledger_info_with_sigs == ledger_info_with_sigs,
            r.more == more,
    {
        EpochChangeProof { ledger_info_with_sigs, more }
    }
}

/// The epochs whose ends are read from what is stored: those from `start_epoch` up to, but without,
/// `paging_epoch`.
#[derive(Clone, Copy, Debug, PartialEq, Eq)]
pub struct EpochPage {
    pub start_epoch: u64,
    pub paging_epoch: u64,
    /// Whether more epochs were asked for.
    pub more: bool,
}

/// What a range of epochs that ends before it starts gives.
pub open spec fn spec_check_epoch_range(start_epoch: u64, end_epoch: u64) -> Result<
    (),
    AptosDbError,
> {
    if start_epoch > end_epoch {
        Err(AptosDbError::BadEpochRange { start_epoch, end_epoch })
    } else {
        Ok(())
    }
}

/// Refuses a range of epochs that ends before it starts.
pub fn check_epoch_range(start_epoch: u64, end_epoch: u64) -> (r: Result<(), AptosDbError>)
    ensures
        r == spec_check_epoch_range(start_epoch, end_epoch),
{
    if start_epoch > end_epoch {
        return Err(AptosDbError::BadEpochRange { start_epoch, end_epoch });
    }
    Ok(())
}

/// The page that is answered to a request for the ends of the epochs from `start_epoch` up to, but
/// without, `end_epoch`. The ends of epochs exist up to `latest_epoch`.
pub open spec fn spec_epoch_page(
    start_epoch: u64,
    end_epoch: u64,
    latest_epoch: u64,
    limit: usize,
) -> Result<EpochPage, AptosDbError> {
    if end_epoch > latest_epoch {
        Err(
            AptosDbError::EpochStillOpen {
                end_epoch,
                last_sealed_epoch: (latest_epoch - 1) as u64,
            },
        )
    } else {
        let paging_epoch = least(start_epoch + limit, end_epoch as int) as u64;
        Ok(EpochPage { start_epoch, paging_epoch, more: paging_epoch < end_epoch })
    }
}

/// Finds the page that is answered to a request for the ends of epochs.
pub fn epoch_page(start_epoch: u64, end_epoch: u64, latest_epoch: u64, limit: usize) -> (r: Result<
    EpochPage,
    AptosDbError,
>)
    requires
        start_epoch <= end_epoch,
        // The ledger info of genesis has 1 as the epoch of the next block.
        end_epoch > latest_epoch ==> latest_epoch >= 1,
    ensures
        r == spec_epoch_page(start_epoch, end_epoch, latest_epoch, limit),
        r matches Ok(page) ==> start_epoch <= page.paging_epoch,
{
    if end_epoch > latest_epoch {
        return Err(
            AptosDbError::EpochStillOpen { end_epoch, last_sealed_epoch: latest_epoch - 1 },
        );
    }
    if end_epoch - start_epoch > limit as u64 {
        let paging_epoch: u64 = start_epoch + limit as u64;
        Ok(EpochPage { start_epoch, paging_epoch, more: true })
    } else {
        Ok(EpochPage { start_epoch, paging_epoch: end_epoch, more: false })
    }
}

/// The first epoch whose end is missing, where the ledger infos go up to the first gap.
pub open spec fn first_missing_epoch(
    page: EpochPage,
    ledger_infos: Seq<LedgerInfoWithSignatures>,
) -> u64 {
    if ledger_infos.len() == 0 {
        page.start_epoch
    } else {
        ledger_infos.last().ledger_info.next_block_epoch
    }
}

/// Answers with the ledger infos that were read for a page. There must be one for each epoch.
pub fn finish_epoch_page(
    page: &EpochPage,
    ledger_infos: Vec<LedgerInfoWithSignatures>,
) -> (r: Result<EpochChangeProof, AptosDbError>)
    requires
        page.start_epoch <= page.paging_epoch,
    ensures
        r is Ok <==> ledger_infos@.len() == page.paging_epoch - page.start_epoch,
        r matches Ok(answer) ==> {
            &&& answer.ledger_info_with_sigs@ == ledger_infos@
            &&& answer.more == page.more
        },
        r matches Err(e) ==> e == (AptosDbError::MissingEpochEnding {
            epoch: first_missing_epoch(*page, ledger_infos@),
        }),
{
    let count: usize = ledger_infos.len();
    if count as u64 != page.paging_epoch - page.start_epoch {
        let epoch: u64 = if count == 0 {
            page.start_epoch
        } else {
            ledger_infos[count - 1].ledger_info().next_block_epoch()
        };
        return Err(AptosDbError::MissingEpochEnding { epoch });
    }
    Ok(EpochChangeProof::new(ledger_infos, page.more))
}

/// Refuses a client that knows a newer version than that of the ledger info.
pub fn check_known_version(known_version: Version, ledger_info: &LedgerInfo) -> (r: Result<
    (),
    AptosDbError,
>)
    ensures
        r == if known_version > ledger_info.version {
            Err::<(), AptosDbError>(
                AptosDbError::KnownVersionTooNew {
                    known_version,
                    ledger_version: ledger_info.version,
                },
            )
        } else {
            Ok(())
        },
{
    if known_version > ledger_info.version() {
        return Err(
            AptosDbError::KnownVersionTooNew {
                known_version,
                ledger_version: ledger_info.version(),
            },
        );
    }
    Ok(())
}

/// The epochs whose ends a client has to be shown to get from the epoch it knows to that of the
/// ledger info.
pub fn epochs_to_show(known_epoch: u64, ledger_info: &LedgerInfo) -> (r: Option<(u64, u64)>)
    ensures
        r == if known_epoch < ledger_info.next_block_epoch {
            Some((known_epoch, ledger_info.next_block_epoch))
        } else {
            None
        },
{
    let end_epoch: u64 = ledger_info.next_block_epoch();
    if known_epoch < end_epoch {
        Some((known_epoch, end_epoch))
    } else {
        None
    }
}

/// A page has the first epochs of those asked for, and not more than the limit. If there are no
/// more than the limit it has all of them, and otherwise the flag says that there are more.
pub proof fn epoch_page_is_first_part(
    start_epoch: u64,
    end_epoch: u64,
    latest_epoch: u64,
    limit: usize,
    page: EpochPage,
)
    requires
        start_epoch <= end_epoch,
        spec_epoch_page(start_epoch, end_epoch, latest_epoch, limit) == Ok::<
            EpochPage,
            AptosDbError,
        >(page),
    ensures
        page.start_epoch == start_epoch,
        start_epoch <= page.paging_epoch <= end_epoch <= latest_epoch,
        page.paging_epoch - start_epoch <= limit,
        end_epoch - start_epoch <= limit ==> page.paging_epoch == end_epoch && !page.more,
        end_epoch - start_epoch > limit ==> page.paging_epoch == start_epoch + limit && page.more,
{
}

/// The pages that are answered to requests that each go on where the page before ended, as long as
/// there are more.
pub open spec fn all_epoch_pages(
    start_epoch: u64,
    end_epoch: u64,
    latest_epoch: u64,
    limit: usize,
) -> Seq<EpochPage>
    decreases end_epoch - start_epoch,
{
    match spec_epoch_page(start_epoch, end_epoch, latest_epoch, limit) {
        Ok(page) => if page.more && page.paging_epoch > start_epoch {
            seq![page] + all_epoch_pages(page.paging_epoch, end_epoch, latest_epoch, limit)
        } else {
            seq![page]
        },
        Err(_) => Seq::empty(),
    }
}

/// Requests that each go on where the page before ended, as long as there are more, get every epoch
/// of the range, each of them once and in order.
pub proof fn epoch_pages_cover_range(
    start_epoch: u64,
    end_epoch: u64,
    latest_epoch: u64,
    limit: usize,
)
    requires
        start_epoch <= end_epoch <= latest_epoch,
        limit > 0,
    ensures
        ({
            let pages = all_epoch_pages(start_epoch, end_epoch, latest_epoch, limit);
            &&& pages.len() > 0
            &&& pages[0].start_epoch == start_epoch
            &&& pages.last().paging_epoch == end_epoch
            &&& !pages.last().more
            &&& forall|i: int|
                #![trigger pages[i]]
                0 <= i < pages.len() - 1 ==> pages[i].paging_epoch == pages[i + 1].start_epoch
        }),
    decreases end_epoch - start_epoch,
{
    let pages = all_epoch_pages(start_epoch, end_epoch, latest_epoch, limit);
    if end_epoch - start_epoch > limit {
        let next = (start_epoch + limit) as u64;
        let rest = all_epoch_pages(next, end_epoch, latest_epoch, limit);
        epoch_pages_cover_range(next, end_epoch, latest_epoch, limit);
        assert forall|i: int|
            #![trigger pages[i]]
            0 <= i < pages.len() - 1 implies pages[i].paging_epoch == pages[i + 1].start_epoch by {
            if i > 0 {
                assert(pages[i] == rest[i - 1] && pages[i + 1] == rest[i]);
            }
        }
    }
}

/// Where the ledger infos that were read are those of the first epochs of a page, one for each of
/// them up to a gap, the error names the epoch of the gap.
pub proof fn missing_epoch_is_first_gap(
    page: EpochPage,
    ledger_infos: Seq<LedgerInfoWithSignatures>,
)
    requires
        page.start_epoch + ledger_infos.len() <= page.paging_epoch,
        forall|i: int|
            0 <= i < ledger_infos.len() ==> (#[trigger] ledger_infos[i]).ledger_info.next_block_epoch
                == page.start_epoch + i + 1,
    ensures
        first_missing_epoch(page, ledger_infos) == page.start_epoch + ledger_infos.len(),
{
}

} // verus!
