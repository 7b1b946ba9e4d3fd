//! The offline unlock of a retained owner epoch.

use vstd::prelude::*;
use vstd::string::StringExecFns;

use crate::error::{
    fatal_error, plain_error, DetailedError, DetailedErrorView, RelatedFailure, RuntimeErrorCode,
    RuntimeHostError, RuntimeHostResult,
};
use crate::ids::OwnerEpoch;
use crate::owner::{OwnerResourceDisposition, OwnerUnlock};
use crate::text::{append_decimal, decimal};

verus! {

/// The retained epoch the operator unlocked and the owner journal revision that did it.
#[derive(Debug, Clone, Copy)]
pub struct OwnerUnlockReceipt {
    pub owner_epoch: OwnerEpoch,
    pub previous_resource_disposition: OwnerResourceDisposition,
    pub revision: u64,
}

#[derive(Debug, Clone)]
pub struct OwnerUnlockFailure {
    pub error: DetailedError,
    /// `journal` up to and including the owner journal append, `ledger` for the fact.
    pub stage: &'static str,
    /// The unlock record is durable; the next start takes the epoch over regardless.
    pub journal_appended: bool,
}

/// The answer to an unlock. `unlocked` is the journal's part, durable when it
/// is `Ok`; `recorded` says whether the ledger then took the fact.
pub fn unlock_outcome(
    unlocked: &RuntimeHostResult<OwnerUnlock>,
    recorded: Result<(), DetailedError>,
) -> (result: Result<OwnerUnlockReceipt, OwnerUnlockFailure>)
    ensures
        match *unlocked {
            Err(error) => result matches Err(failure) && failure.error@ == plain_error(error)
                && failure.stage == "journal" && !failure.journal_appended,
            Ok(unlock) => match recorded {
                Err(error) => result matches Err(failure) && failure.error == error
                    && failure.stage == "ledger" && failure.journal_appended,
                Ok(_) => result == Ok::<_, OwnerUnlockFailure>(
                    OwnerUnlockReceipt {
                        owner_epoch: unlock.record.owner_epoch,
                        previous_resource_disposition: unlock.previous_resource_disposition,
                        revision: unlock.record.revision,
                    },
                ),
            },
        },
{
    match unlocked {
        Err(error) => Err(
            OwnerUnlockFailure {
                error: DetailedError::plain(*error),
                stage: "journal",
                journal_appended: false,
            },
        ),
        Ok(unlock) => match recorded {
            Err(error) => Err(
                OwnerUnlockFailure { error, stage: "ledger", journal_appended: true },
            ),
            Ok(_) => Ok(
                OwnerUnlockReceipt {
                    owner_epoch: unlock.record.owner_epoch,
                    previous_resource_disposition: unlock.previous_resource_disposition,
                    revision: unlock.record.revision,
                },
            ),
        },
    }
}

/// Only a ledger in its formal storage takes the unlock fact.
pub fn admit_unlock_ledger(ready: bool) -> (result: RuntimeHostResult<()>)
    ensures
        ready ==> result is Ok,
        !ready ==> result == Err::<(), RuntimeHostError>(
            fatal_error(
                "ledger_migration_required",
                "select_runtime_storage",
                RuntimeErrorCode::LedgerFailure,
            ),
        ),
{
    if ready {
        Ok(())
    } else {
        Err(
            RuntimeHostError::fatal(
                "ledger_migration_required",
                "select_runtime_storage",
                RuntimeErrorCode::LedgerFailure,
            ),
        )
    }
}

/// The name under which the unlock writes the ledger.
pub fn unlock_writer_id(pid: u32, unix_ms: u64) -> (id: String)
    ensures
        id@ == "actingd-unlock-owner-"@ + decimal(pid as nat) + "-"@ + decimal(unix_ms as nat),
{
    let mut id = String::from_str("actingd-unlock-owner-");
    append_decimal(&mut id, pid as u64);
    id.append("-");
    append_decimal(&mut id, unix_ms);
    id
}

/// The first failure of writing the fact and closing the ledger after it; a
/// close that fails too is kept with the first.
pub fn unlock_record_result(
    appended: RuntimeHostResult<()>,
    closed: RuntimeHostResult<()>,
) -> (result: Result<(), DetailedError>)
    ensures
        match (appended, closed) {
            (Ok(_), Ok(_)) => result is Ok,
            (Err(error), Ok(_)) => result matches Err(failed) && failed@ == plain_error(error),
            (Ok(_), Err(error)) => result matches Err(failed) && failed@ == plain_error(error),
            (Err(error), Err(closing)) => result matches Err(failed) && failed@ == (
            DetailedErrorView {
                related: Some(RelatedFailure { stage: "close_unlock_ledger", error: closing }),
                ..plain_error(error)
            }),
        },
{
    match (appended, closed) {
        (Ok(_), Ok(_)) => Ok(()),
        (Err(error), Ok(_)) => Err(DetailedError::plain(error)),
        (Ok(_), Err(error)) => Err(DetailedError::plain(error)),
        (Err(error), Err(closing)) => Err(
            DetailedError::plain(error).with_related_failure("close_unlock_ledger", closing),
        ),
    }
}

} // verus!
