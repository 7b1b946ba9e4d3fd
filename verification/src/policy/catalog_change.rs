//! Changing the active generation together with the event that tells of it.

use vstd::prelude::*;
use vstd::string::StringExecFns;

use crate::error::{
    fatal_error, plain_error, request_error, DetailedError, DetailedErrorView, RuntimeErrorCode,
    RuntimeHostError, RuntimeHostResult,
};
use crate::policy::catalog::{fatal, policy_fatal, policy_request, request};
use crate::policy::catalog_source::{
    comes_from, CatalogEvent, CatalogEventPayload, Party, StateMigration,
};
use crate::policy::generation::{
    pointer_to, CatalogGeneration, CatalogPointer, LoadedCatalog, CATALOG_STATE_SCHEMA,
};
use crate::policy::host::PolicyHost;
use crate::text::{optional_text, same_optional_text, same_text};

verus! {

/// What a transaction is to change.
#[derive(Debug)]
pub enum CatalogChange {
    Transition {
        generation: CatalogGeneration,
        previous: Option<String>,
        /// The active generation was the expected one when the change was
        /// prepared.
        current_matches: bool,
    },
    Migration(StateMigration),
}

/// The event tells of the change.
pub open spec fn tells_of(event: CatalogEvent, change: CatalogChange) -> bool {
    match change {
        CatalogChange::Transition { generation, previous, .. } => {
            let transition = match event.payload {
                CatalogEventPayload::Activated { transition } => Some(transition),
                CatalogEventPayload::RolledBack { transition } => Some(transition),
                _ => None,
            };
            &&& transition is Some
            &&& comes_from(event.origin, Party::Policy)
            &&& (transition->0).catalog_id@ == generation.catalog_id@
            &&& (transition->0).catalog_version == generation.catalog_version
            &&& (transition->0).catalog_hash@ == generation.catalog_hash@
            &&& optional_text((transition->0).previous_catalog_hash) == optional_text(previous)
        },
        CatalogChange::Migration(expected) => event.payload matches CatalogEventPayload::Migrated {
            migration,
            ..
        } && comes_from(event.origin, Party::Runtime) && migration@ == expected@,
    }
}

fn event_tells_of(event: &CatalogEvent, change: &CatalogChange) -> (tells: bool)
    ensures
        tells == tells_of(*event, *change),
{
    let by_runtime = event.origin.source == Party::Runtime && event.origin.actor == Party::Runtime;
    match change {
        CatalogChange::Transition { generation, previous, .. } => {
            let transition = match &event.payload {
                CatalogEventPayload::Activated { transition } => transition,
                CatalogEventPayload::RolledBack { transition } => transition,
                _ => {
                    return false;
                },
            };
            by_runtime && event.origin.module == Party::Policy && same_text(
                transition.catalog_id.as_str(),
                generation.catalog_id.as_str(),
            ) && transition.catalog_version == generation.catalog_version && same_text(
                transition.catalog_hash.as_str(),
                generation.catalog_hash.as_str(),
            ) && same_optional_text(&transition.previous_catalog_hash, previous)
        },
        CatalogChange::Migration(expected) => match &event.payload {
            CatalogEventPayload::Migrated { migration, .. } => by_runtime && event.origin.module
                == Party::Runtime && migration.same(expected),
            _ => false,
        },
    }
}

/// Whether a prepared change may be applied together with an event.
pub fn check_change(
    change: &CatalogChange,
    prepared: RuntimeHostResult<()>,
    event: &CatalogEvent,
) -> (result: RuntimeHostResult<()>)
    ensures
        if change matches CatalogChange::Transition { current_matches: false, .. } {
            result == Err::<(), _>(
                policy_request("catalog_active_generation_changed", "switch_active_catalog"),
            )
        } else if prepared is Err {
            result == prepared
        } else if !tells_of(*event, *change) {
            result == Err::<(), _>(
                policy_fatal("catalog_transaction_fact_mismatch", "commit_catalog_state"),
            )
        } else {
            result == Ok::<(), RuntimeHostError>(())
        },
{
    if let CatalogChange::Transition { current_matches, .. } = change {
        if !*current_matches {
            return Err(request("catalog_active_generation_changed", "switch_active_catalog"));
        }
    }
    if let Err(error) = prepared {
        return Err(error);
    }
    if !event_tells_of(event, change) {
        return Err(fatal("catalog_transaction_fact_mismatch", "commit_catalog_state"));
    }
    Ok(())
}

/// The pointer that a transition writes, provided that the stored one still
/// names the generation it starts from.
pub fn prepare_transition(
    next: &CatalogGeneration,
    current: RuntimeHostResult<Option<&LoadedCatalog>>,
    previous: Option<&str>,
) -> (result: RuntimeHostResult<CatalogPointer>)
    ensures
        match current {
            Err(error) => result matches Err(actual) && actual == error,
            Ok(current) => {
                let stored = match current {
                    Some(loaded) => Some(loaded.generation.catalog_hash@),
                    None => None,
                };
                let expected = match previous {
                    Some(hash) => Some(hash@),
                    None => None,
                };
                if stored != expected {
                    result matches Err(error) && error == policy_request(
                        "state_document_changed",
                        "write_state_document",
                    )
                } else {
                    result matches Ok(pointer) && pointer.schema_version@ == CATALOG_STATE_SCHEMA@
                        && pointer.generation@ == next@
                }
            },
        },
{
    let current = current?;
    let unchanged = match (current, previous) {
        (Some(loaded), Some(hash)) => same_text(loaded.generation.catalog_hash.as_str(), hash),
        (None, None) => true,
        _ => false,
    };
    if !unchanged {
        return Err(request("state_document_changed", "write_state_document"));
    }
    Ok(pointer_to(next))
}

/// The error of the work inside a transaction that was rolled back.
#[derive(Debug, Clone, Copy)]
pub struct TransactionWorkError {
    pub code: &'static str,
    pub operation: &'static str,
    pub fatal: bool,
}

/// An error as the transaction carries it.
pub fn work_error(error: RuntimeHostError) -> (work: TransactionWorkError)
    ensures
        work == (TransactionWorkError {
            code: error.code,
            operation: error.operation,
            fatal: error.fatal,
        }),
{
    TransactionWorkError { code: error.code, operation: error.operation, fatal: error.fatal }
}

/// The error of a transaction: that of the work inside it, or the ledger's
/// own. `detail` is that failure in words. A migration whose work failed stops
/// the host.
pub fn migration_append_error(
    work: Option<TransactionWorkError>,
    code: &'static str,
    operation: &'static str,
    detail: String,
) -> (error: DetailedError)
    ensures
        error@ == (DetailedErrorView {
            native_detail: Some(detail@),
            ..plain_error(
                match work {
                    Some(work) => fatal_error(
                        work.code,
                        work.operation,
                        RuntimeErrorCode::RuntimeFatal,
                    ),
                    None => fatal_error(code, operation, RuntimeErrorCode::LedgerFailure),
                },
            )
        }),
{
    let error = match work {
        Some(work) => RuntimeHostError::fatal(
            work.code,
            work.operation,
            RuntimeErrorCode::RuntimeFatal,
        ),
        None => RuntimeHostError::fatal(code, operation, RuntimeErrorCode::LedgerFailure),
    };
    DetailedError::plain(error).with_native_detail(detail)
}

/// The error of a planning transaction: work that was refused refuses the
/// request only, and was rolled back. `detail` is the failure in words.
pub fn planning_transaction_error(
    work: Option<TransactionWorkError>,
    code: &'static str,
    operation: &'static str,
    detail: String,
) -> (error: DetailedError)
    ensures
        error@ == match work {
            Some(work) => DetailedErrorView {
                native_detail: Some("rollback=confirmed; "@ + detail@),
                ..plain_error(
                    if work.fatal {
                        fatal_error(work.code, work.operation, RuntimeErrorCode::RuntimeFatal)
                    } else {
                        request_error(work.code, work.operation, RuntimeErrorCode::InvalidRequest)
                    },
                )
            },
            None => DetailedErrorView {
                native_detail: Some(detail@),
                ..plain_error(fatal_error(code, operation, RuntimeErrorCode::LedgerFailure))
            },
        },
{
    match work {
        Some(work) => {
            let error = if work.fatal {
                RuntimeHostError::fatal(work.code, work.operation, RuntimeErrorCode::RuntimeFatal)
            } else {
                RuntimeHostError::request(
                    work.code,
                    work.operation,
                    RuntimeErrorCode::InvalidRequest,
                )
            };
            let mut words = String::from_str("rollback=confirmed; ");
            words.append(detail.as_str());
            DetailedError::plain(error).with_native_detail(words)
        },
        None => DetailedError::plain(
            RuntimeHostError::fatal(code, operation, RuntimeErrorCode::LedgerFailure),
        ).with_native_detail(detail),
    }
}

/// A generation by id, version and hash.
#[derive(Debug, Clone)]
pub struct CatalogIdentity {
    pub catalog_id: String,
    pub catalog_version: u64,
    pub catalog_hash: String,
}

impl PolicyHost {
    /// The generation that was active at a position of the ledger.
    /// `activations` are the activations and rollbacks up to that position, in
    /// order.
    pub fn active_loaded_at(
        &self,
        latest: u64,
        ledger_position: u64,
        activations: &Vec<CatalogIdentity>,
    ) -> (result: RuntimeHostResult<Option<&LoadedCatalog>>)
        requires
            self.wf(),
        ensures
            if ledger_position == 0 || ledger_position > latest {
                result matches Err(error) && error == policy_request(
                    "catalog_projection_position_invalid",
                    "project_policy_catalog",
                )
            } else if activations@.len() == 0 {
                result matches Ok(active) && active is None
            } else {
                let last = activations@.last();
                match self.shelf.lookup(last.catalog_hash@) {
                    Err(fault) => result matches Err(error) && error == fault,
                    Ok(loaded) => if loaded.generation.catalog_id@ != last.catalog_id@
                        || loaded.generation.catalog_version != last.catalog_version {
                        result matches Err(error) && error == policy_fatal(
                            "catalog_projection_identity_mismatch",
                            "project_policy_catalog",
                        )
                    } else {
                        result matches Ok(Some(active)) && *active == loaded
                    },
                }
            },
    {
        if ledger_position == 0 || ledger_position > latest {
            return Err(request("catalog_projection_position_invalid", "project_policy_catalog"));
        }
        if activations.len() == 0 {
            return Ok(None);
        }
        let last = &activations[activations.len() - 1];
        let loaded = self.shelf.load_generation(last.catalog_hash.as_str())?;
        if !same_text(loaded.generation.catalog_id.as_str(), last.catalog_id.as_str())
            || loaded.generation.catalog_version != last.catalog_version || !same_text(
            loaded.generation.catalog_hash.as_str(),
            last.catalog_hash.as_str(),
        ) {
            return Err(fatal("catalog_projection_identity_mismatch", "project_policy_catalog"));
        }
        Ok(Some(loaded))
    }
}

/// An event tells of a transition exactly when the policy recorded it as done,
/// with the generation's identity and the one that it replaced.
pub proof fn law_only_the_done_transition_is_told(
    event: CatalogEvent,
    generation: CatalogGeneration,
    previous: Option<String>,
    current_matches: bool,
)
    ensures
        tells_of(event, CatalogChange::Transition { generation, previous, current_matches }) ==> (
        event.payload is Activated || event.payload is RolledBack) && event.origin.source
            == Party::Runtime && event.origin.module == Party::Policy && event.origin.actor
            == Party::Runtime,
        event.payload matches CatalogEventPayload::Activated { transition } ==> (tells_of(
            event,
            CatalogChange::Transition { generation, previous, current_matches },
        ) <==> comes_from(event.origin, Party::Policy) && transition.catalog_id@
            == generation.catalog_id@ && transition.catalog_version == generation.catalog_version
            && transition.catalog_hash@ == generation.catalog_hash@ && optional_text(
            transition.previous_catalog_hash,
        ) == optional_text(previous)),
        event.payload is TransitionIntent || event.payload is TransitionFailed ==> !tells_of(
            event,
            CatalogChange::Transition { generation, previous, current_matches },
        ),
{
}

/// An event tells of a migration exactly when the runtime recorded that very
/// migration.
pub proof fn law_only_the_same_migration_is_told(event: CatalogEvent, expected: StateMigration)
    ensures
        tells_of(event, CatalogChange::Migration(expected)) <==> event.payload is Migrated
            && event.payload->migration@ == expected@ && event.origin.source == Party::Runtime
            && event.origin.module == Party::Runtime && event.origin.actor == Party::Runtime,
{
}

} // verus!
