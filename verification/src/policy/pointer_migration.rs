//! The course by which the pointer file of the active generation moves into the
//! state store.

use vstd::prelude::*;

use crate::error::{
    fatal_error, plain_error, DetailedError, DetailedErrorView, RuntimeErrorCode, RuntimeHostError,
};
use crate::policy::catalog::{fatal, policy_fatal};
use crate::policy::catalog_change::{migration_append_error, TransactionWorkError};
use crate::policy::catalog_source::{MigrationView, StateMigration};
use crate::policy::generation::{CatalogGeneration, CatalogPointer, CATALOG_STATE_SCHEMA};
use crate::text::{same_bytes, same_text};

verus! {

pub open spec fn migration_error(code: &'static str) -> RuntimeHostError {
    policy_fatal(code, "migrate_active_catalog")
}

/// How many recorded migrations are the one in question, if none contradicts
/// it.
pub open spec fn recorded_count(recorded: Seq<StateMigration>, migration: MigrationView) -> Option<
    nat,
>
    decreases recorded.len(),
{
    if recorded.len() == 0 {
        Some(0)
    } else {
        match recorded_count(recorded.drop_last(), migration) {
            None => None,
            Some(count) => if recorded.last().migration_id@ != migration.migration_id {
                Some(count)
            } else if recorded.last()@ != migration {
                None
            } else {
                Some(count + 1)
            },
        }
    }
}

proof fn lemma_contradiction_stays(
    recorded: Seq<StateMigration>,
    migration: MigrationView,
    count: int,
)
    requires
        0 <= count <= recorded.len(),
        recorded_count(recorded.take(count), migration) is None,
    ensures
        recorded_count(recorded, migration) is None,
    decreases recorded.len(),
{
    if count == recorded.len() {
        assert(recorded.take(count) =~= recorded);
    } else {
        assert(recorded.drop_last().take(count) =~= recorded.take(count));
        lemma_contradiction_stays(recorded.drop_last(), migration, count);
    }
}

fn count_recorded(recorded: &Vec<StateMigration>, migration: &StateMigration) -> (count: Option<
    usize,
>)
    ensures
        match recorded_count(recorded@, migration@) {
            Some(expected) => count is Some && count->0 == expected,
            None => count is None,
        },
{
    let mut count: usize = 0;
    let mut index: usize = 0;
    assert(recorded@.take(0) =~= Seq::empty());
    while index < recorded.len()
        invariant
            index <= recorded.len(),
            count <= index,
            recorded_count(recorded@.take(index as int), migration@) == Some(count as nat),
        decreases recorded.len() - index,
    {
        proof {
            let taken = recorded@.take(index + 1);
            assert(taken.drop_last() =~= recorded@.take(index as int));
            assert(taken.last() == recorded@[index as int]);
        }
        if same_text(recorded[index].migration_id.as_str(), migration.migration_id.as_str()) {
            if !recorded[index].same(migration) {
                proof {
                    lemma_contradiction_stays(recorded@, migration@, index + 1);
                }
                return None;
            }
            count += 1;
        }
        index += 1;
    }
    assert(recorded@.take(recorded@.len() as int) =~= recorded@);
    Some(count)
}

/// The next thing to do.
#[derive(Debug, Clone, Copy, PartialEq, Eq, Structural)]
pub enum PointerAction {
    /// Look for the pointer file.
    FindFile,
    ReadFile,
    /// Load the generation that the pointer names.
    LoadGeneration,
    /// Encode the pointer as the state store will hold it.
    Encode,
    /// Move the document into the state store, where no ledger tells of it.
    Migrate,
    /// Read which generation the ledger makes active.
    ReadSource,
    /// Let the state store prepare the migration.
    Prepare,
    /// Read the migrations that the ledger holds.
    ReadRecorded,
    /// Append the migration, and the change of the state store with it.
    Append,
    /// Read the document that the migration wrote.
    ReadDocument,
    /// Verify the generation that is active now.
    VerifyActive,
    RemoveFile,
    SyncDirectory,
}

/// What an action gave.
#[derive(Debug)]
pub enum PointerReply {
    Done,
    Failed(DetailedError),
    Exists(bool),
    /// The pointer; nothing where the file cannot be decoded.
    File(Option<CatalogPointer>),
    Loaded(CatalogGeneration),
    /// The document; nothing where the pointer cannot be encoded.
    Encoded(Option<Vec<u8>>),
    Source(Option<CatalogGeneration>),
    Prepared(Option<StateMigration>),
    Recorded(Vec<StateMigration>),
    /// The transaction failed: the work inside it, or the ledger itself.
    NotAppended {
        work: Option<TransactionWorkError>,
        code: &'static str,
        operation: &'static str,
        detail: String,
    },
    Document(Vec<u8>),
    /// The file is still there, and why.
    NotRemoved { detail: String },
}

/// A migration of the pointer file in progress.
#[derive(Debug)]
pub struct PointerMigration {
    /// The ledger tells of the migration.
    pub with_ledger: bool,
    pub action: PointerAction,
    pub pointer: Option<CatalogPointer>,
    /// The document, as the state store holds it.
    pub canonical: Vec<u8>,
    pub migration: Option<StateMigration>,
}

/// The value of a migration in progress.
#[verifier::ext_equal]
pub struct PointerMigrationView {
    pub with_ledger: bool,
    pub action: PointerAction,
    pub pointer: Option<CatalogPointer>,
    pub canonical: Seq<u8>,
    pub migration: Option<StateMigration>,
}

impl View for PointerMigration {
    type V = PointerMigrationView;

    open spec fn view(&self) -> PointerMigrationView {
        PointerMigrationView {
            with_ledger: self.with_ledger,
            action: self.action,
            pointer: self.pointer,
            canonical: self.canonical@,
            migration: self.migration,
        }
    }
}

/// A migration that goes on, or its result.
#[derive(Debug)]
pub enum PointerProgress {
    Next(PointerMigration),
    End(Result<(), DetailedError>),
}

pub enum PointerProgressView {
    Next(PointerMigrationView),
    End(Result<(), DetailedErrorView>),
}

impl View for PointerProgress {
    type V = PointerProgressView;

    open spec fn view(&self) -> PointerProgressView {
        match *self {
            PointerProgress::Next(run) => PointerProgressView::Next(run@),
            PointerProgress::End(Ok(_)) => PointerProgressView::End(Ok(())),
            PointerProgress::End(Err(error)) => PointerProgressView::End(Err(error@)),
        }
    }
}

pub open spec fn pointer_wf(run: PointerMigrationView) -> bool {
    match run.action {
        PointerAction::FindFile | PointerAction::ReadFile => true,
        PointerAction::LoadGeneration | PointerAction::Encode => run.pointer is Some,
        PointerAction::ReadSource | PointerAction::Prepare => run.with_ledger && run.pointer
            is Some,
        PointerAction::ReadRecorded
        | PointerAction::Append
        | PointerAction::ReadDocument
        | PointerAction::VerifyActive => run.with_ledger && run.migration is Some,
        PointerAction::Migrate => !run.with_ledger,
        PointerAction::RemoveFile | PointerAction::SyncDirectory => true,
    }
}

/// The reply answers the action.
pub open spec fn pointer_reply_fits(action: PointerAction, reply: PointerReply) -> bool {
    match action {
        PointerAction::FindFile => reply is Exists,
        PointerAction::ReadFile => reply is File || reply is Failed,
        PointerAction::LoadGeneration => reply is Loaded || reply is Failed,
        PointerAction::Encode => reply is Encoded,
        PointerAction::ReadSource => reply is Source || reply is Failed,
        PointerAction::Prepare => reply is Prepared || reply is Failed,
        PointerAction::ReadRecorded => reply is Recorded || reply is Failed,
        PointerAction::Append => reply is Done || reply is NotAppended || reply is Failed,
        PointerAction::ReadDocument => reply is Document || reply is Failed,
        PointerAction::RemoveFile => reply is Done || reply is NotRemoved,
        _ => reply is Done || reply is Failed,
    }
}

pub open spec fn pointer_failed(code: &'static str) -> PointerProgressView {
    PointerProgressView::End(Err(plain_error(migration_error(code))))
}

/// The step once the recorded migrations are known: one that contradicts this
/// one, or that was recorded twice, is a conflict.
pub open spec fn after_recorded(run: PointerMigrationView, recorded: Seq<StateMigration>) ->
    PointerProgressView {
    match recorded_count(recorded, run.migration->0@) {
        None => pointer_failed("catalog_migration_source_conflict"),
        Some(count) => if count > 1 {
            pointer_failed("catalog_migration_source_conflict")
        } else {
            PointerProgressView::Next(
                PointerMigrationView {
                    action: if count == 1 {
                        PointerAction::ReadDocument
                    } else {
                        PointerAction::Append
                    },
                    ..run
                },
            )
        },
    }
}

/// The error of a transaction that failed.
pub open spec fn append_failure(
    work: Option<TransactionWorkError>,
    code: &'static str,
    operation: &'static str,
    detail: Seq<char>,
) -> DetailedErrorView {
    DetailedErrorView {
        native_detail: Some(detail),
        ..plain_error(
            match work {
                Some(work) => fatal_error(work.code, work.operation, RuntimeErrorCode::RuntimeFatal),
                None => fatal_error(code, operation, RuntimeErrorCode::LedgerFailure),
            },
        )
    }
}

/// The error of a pointer file that could not be removed.
pub open spec fn removal_failure(with_ledger: bool, detail: Seq<char>) -> DetailedErrorView {
    DetailedErrorView {
        native_detail: if with_ledger {
            Some(detail)
        } else {
            None
        },
        ..plain_error(migration_error("catalog_pointer_cleanup_failed"))
    }
}

/// The step after a reply.
pub open spec fn pointer_step(run: PointerMigrationView, reply: PointerReply) -> PointerProgressView {
    let next = |action: PointerAction|
        PointerProgressView::Next(PointerMigrationView { action, ..run });
    match (run.action, reply) {
        (_, PointerReply::Failed(error)) => PointerProgressView::End(Err(error@)),
        (PointerAction::FindFile, PointerReply::Exists(exists)) => if exists {
            next(PointerAction::ReadFile)
        } else {
            PointerProgressView::End(Ok(()))
        },
        (PointerAction::ReadFile, PointerReply::File(pointer)) => if pointer is None {
            pointer_failed("catalog_pointer_invalid")
        } else if pointer->0.schema_version@ != CATALOG_STATE_SCHEMA@ {
            pointer_failed("catalog_pointer_version_unsupported")
        } else {
            PointerProgressView::Next(
                PointerMigrationView { action: PointerAction::LoadGeneration, pointer, ..run },
            )
        },
        (PointerAction::LoadGeneration, PointerReply::Loaded(generation)) => if generation@
            != run.pointer->0.generation@ {
            pointer_failed("catalog_pointer_generation_mismatch")
        } else {
            next(PointerAction::Encode)
        },
        (PointerAction::Encode, PointerReply::Encoded(document)) => match document {
            None => pointer_failed("catalog_pointer_encode_failed"),
            Some(bytes) => PointerProgressView::Next(
                PointerMigrationView {
                    action: if run.with_ledger {
                        PointerAction::ReadSource
                    } else {
                        PointerAction::Migrate
                    },
                    canonical: bytes@,
                    ..run
                },
            ),
        },
        (PointerAction::Migrate, _) => next(PointerAction::RemoveFile),
        (PointerAction::ReadSource, PointerReply::Source(active)) => if active is Some
            && active->0@ != run.pointer->0.generation@ {
            pointer_failed("catalog_migration_source_conflict")
        } else {
            next(PointerAction::Prepare)
        },
        (PointerAction::Prepare, PointerReply::Prepared(migration)) => if migration is None {
            pointer_failed("catalog_migration_missing")
        } else {
            PointerProgressView::Next(
                PointerMigrationView { action: PointerAction::ReadRecorded, migration, ..run },
            )
        },
        (PointerAction::ReadRecorded, PointerReply::Recorded(recorded)) => after_recorded(
            run,
            recorded@,
        ),
        (PointerAction::Append, PointerReply::NotAppended { work, code, operation, detail }) =>
        PointerProgressView::End(Err(append_failure(work, code, operation, detail@))),
        (PointerAction::Append, _) => next(PointerAction::ReadDocument),
        (PointerAction::ReadDocument, PointerReply::Document(bytes)) => if bytes@ != run.canonical {
            pointer_failed("catalog_migration_source_conflict")
        } else {
            next(PointerAction::VerifyActive)
        },
        (PointerAction::VerifyActive, _) => next(PointerAction::RemoveFile),
        (PointerAction::RemoveFile, PointerReply::NotRemoved { detail }) => PointerProgressView::End(
            Err(removal_failure(run.with_ledger, detail@)),
        ),
        (PointerAction::RemoveFile, _) => next(PointerAction::SyncDirectory),
        _ => PointerProgressView::End(Ok(())),
    }
}

fn fail(code: &'static str) -> (progress: PointerProgress)
    ensures
        progress@ == pointer_failed(code),
{
    PointerProgress::End(Err(DetailedError::plain(fatal(code, "migrate_active_catalog"))))
}

impl PointerMigration {
    /// Begins a migration of which the ledger tells, or one without a ledger.
    pub fn new(with_ledger: bool) -> (run: Self)
        ensures
            pointer_wf(run@),
            run.action == PointerAction::FindFile,
            run.with_ledger == with_ledger,
    {
        PointerMigration {
            with_ledger,
            action: PointerAction::FindFile,
            pointer: None,
            canonical: Vec::new(),
            migration: None,
        }
    }

    fn go(self, action: PointerAction) -> (progress: PointerProgress)
        ensures
            progress@ == PointerProgressView::Next(PointerMigrationView { action, ..self@ }),
    {
        PointerProgress::Next(PointerMigration { action, ..self })
    }

    /// The file names the generation.
    fn names(&self, generation: &CatalogGeneration) -> (named: bool)
        requires
            self.pointer is Some,
        ensures
            named == (generation@ == self.pointer->0.generation@),
    {
        match &self.pointer {
            Some(pointer) => generation.same(&pointer.generation),
            None => false,
        }
    }

    fn take_recorded(self, recorded: &Vec<StateMigration>) -> (progress: PointerProgress)
        requires
            pointer_wf(self@),
            self.with_ledger,
            self.migration is Some,
        ensures
            progress@ == after_recorded(self@, recorded@),
            progress matches PointerProgress::Next(next) ==> pointer_wf(next@),
    {
        let count = match &self.migration {
            Some(migration) => count_recorded(recorded, migration),
            None => None,
        };
        match count {
            None => fail("catalog_migration_source_conflict"),
            Some(count) => {
                if count > 1 {
                    fail("catalog_migration_source_conflict")
                } else if count == 1 {
                    self.go(PointerAction::ReadDocument)
                } else {
                    self.go(PointerAction::Append)
                }
            },
        }
    }

    /// Takes the reply to the current action.
    pub fn advance(self, reply: PointerReply) -> (progress: PointerProgress)
        requires
            pointer_wf(self@),
            pointer_reply_fits(self.action, reply),
        ensures
            progress@ == pointer_step(self@, reply),
            progress matches PointerProgress::Next(next) ==> pointer_wf(next@),
    {
        let mut run = self;
        match reply {
            PointerReply::Failed(error) => PointerProgress::End(Err(error)),
            PointerReply::Exists(exists) => {
                if exists {
                    run.go(PointerAction::ReadFile)
                } else {
                    PointerProgress::End(Ok(()))
                }
            },
            PointerReply::File(pointer) => {
                match &pointer {
                    None => {
                        return fail("catalog_pointer_invalid");
                    },
                    Some(pointer) => {
                        if !same_text(pointer.schema_version.as_str(), CATALOG_STATE_SCHEMA) {
                            return fail("catalog_pointer_version_unsupported");
                        }
                    },
                }
                run.pointer = pointer;
                run.go(PointerAction::LoadGeneration)
            },
            PointerReply::Loaded(generation) => {
                if run.names(&generation) {
                    run.go(PointerAction::Encode)
                } else {
                    fail("catalog_pointer_generation_mismatch")
                }
            },
            PointerReply::Encoded(document) => match document {
                None => fail("catalog_pointer_encode_failed"),
                Some(bytes) => {
                    run.canonical = bytes;
                    if run.with_ledger {
                        run.go(PointerAction::ReadSource)
                    } else {
                        run.go(PointerAction::Migrate)
                    }
                },
            },
            PointerReply::Source(active) => {
                if let Some(active) = &active {
                    if !run.names(active) {
                        return fail("catalog_migration_source_conflict");
                    }
                }
                run.go(PointerAction::Prepare)
            },
            PointerReply::Prepared(migration) => {
                if migration.is_none() {
                    return fail("catalog_migration_missing");
                }
                run.migration = migration;
                run.go(PointerAction::ReadRecorded)
            },
            PointerReply::Recorded(recorded) => run.take_recorded(&recorded),
            PointerReply::NotAppended { work, code, operation, detail } => PointerProgress::End(
                Err(migration_append_error(work, code, operation, detail)),
            ),
            PointerReply::Document(bytes) => {
                if same_bytes(bytes.as_slice(), run.canonical.as_slice()) {
                    run.go(PointerAction::VerifyActive)
                } else {
                    fail("catalog_migration_source_conflict")
                }
            },
            PointerReply::NotRemoved { detail } => {
                let error = DetailedError::plain(
                    fatal("catalog_pointer_cleanup_failed", "migrate_active_catalog"),
                );
                if run.with_ledger {
                    PointerProgress::End(Err(error.with_native_detail(detail)))
                } else {
                    PointerProgress::End(Err(error))
                }
            },
            PointerReply::Done => match run.action {
                PointerAction::Append => run.go(PointerAction::ReadDocument),
                PointerAction::Migrate | PointerAction::VerifyActive => run.go(
                    PointerAction::RemoveFile,
                ),
                PointerAction::RemoveFile => run.go(PointerAction::SyncDirectory),
                _ => PointerProgress::End(Ok(())),
            },
        }
    }
}

/// The pointer file is removed only after the state store took the document;
/// where the ledger tells of it, only after the stored document was found to
/// be that of the file and the active generation was verified.
pub proof fn law_pointer_file_goes_last(run: PointerMigrationView, reply: PointerReply)
    requires
        pointer_wf(run),
        pointer_reply_fits(run.action, reply),
    ensures
        pointer_step(run, reply) matches PointerProgressView::Next(next) ==> {
            &&& next.action == PointerAction::RemoveFile ==> reply is Done && run.action
                == if run.with_ledger {
                PointerAction::VerifyActive
            } else {
                PointerAction::Migrate
            }
            &&& next.action == PointerAction::VerifyActive ==> (reply matches PointerReply::Document(
                bytes,
            ) && bytes@ == run.canonical)
        },
{
}

/// A migration is appended only where the ledger holds none like it, and its
/// document is read only once the ledger holds it.
pub proof fn law_migration_is_recorded_once(run: PointerMigrationView, reply: PointerReply)
    requires
        pointer_wf(run),
        pointer_reply_fits(run.action, reply),
    ensures
        pointer_step(run, reply) matches PointerProgressView::Next(next) ==> {
            &&& next.action == PointerAction::Append ==> (reply matches PointerReply::Recorded(
                recorded,
            ) && recorded_count(recorded@, run.migration->0@) == Some(0nat))
            &&& next.action == PointerAction::ReadDocument ==> (run.action == PointerAction::Append
                && reply is Done) || (reply matches PointerReply::Recorded(recorded)
                && recorded_count(recorded@, run.migration->0@) == Some(1nat))
        },
{
}

/// Nothing is prepared for a pointer that names another generation than the
/// one that the ledger makes active.
pub proof fn law_migration_keeps_to_the_ledger(run: PointerMigrationView, reply: PointerReply)
    requires
        pointer_wf(run),
        pointer_reply_fits(run.action, reply),
        pointer_step(run, reply) matches PointerProgressView::Next(next) && next.action
            == PointerAction::Prepare,
    ensures
        reply matches PointerReply::Source(active) && (active is None || active->0@
            == run.pointer->0.generation@),
{
}

/// The stored pointer is migrated in order: it is found, read, checked against
/// its generation, encoded, recorded in the ledger and read back from there,
/// and only then is its file removed.
pub proof fn law_pointer_is_migrated_in_order(
    run: PointerMigrationView,
    pointer: CatalogPointer,
    generation: CatalogGeneration,
    bytes: Vec<u8>,
)
    requires
        run.with_ledger,
    ensures
        run.action == PointerAction::FindFile ==> pointer_step(run, PointerReply::Exists(false))
            == PointerProgressView::End(Ok(())) && pointer_step(run, PointerReply::Exists(true))
            == PointerProgressView::Next(
            PointerMigrationView { action: PointerAction::ReadFile, ..run },
        ),
        run.action == PointerAction::ReadFile && pointer.schema_version@ == CATALOG_STATE_SCHEMA@
            ==> pointer_step(run, PointerReply::File(Some(pointer))) == PointerProgressView::Next(
            PointerMigrationView {
                action: PointerAction::LoadGeneration,
                pointer: Some(pointer),
                ..run
            },
        ),
        run.action == PointerAction::LoadGeneration && run.pointer is Some ==> ((pointer_step(
            run,
            PointerReply::Loaded(generation),
        ) matches PointerProgressView::Next(next) && next.action == PointerAction::Encode)
            <==> generation@ == run.pointer->0.generation@),
        run.action == PointerAction::Encode ==> pointer_step(
            run,
            PointerReply::Encoded(Some(bytes)),
        ) == PointerProgressView::Next(
            PointerMigrationView {
                action: PointerAction::ReadSource,
                canonical: bytes@,
                ..run
            },
        ),
        run.action == PointerAction::Append ==> pointer_step(run, PointerReply::Done)
            == PointerProgressView::Next(
            PointerMigrationView { action: PointerAction::ReadDocument, ..run },
        ),
        run.action == PointerAction::ReadDocument ==> ((pointer_step(
            run,
            PointerReply::Document(bytes),
        ) matches PointerProgressView::Next(next) && next.action == PointerAction::VerifyActive)
            <==> bytes@ == run.canonical),
        run.action == PointerAction::VerifyActive ==> pointer_step(run, PointerReply::Done)
            == PointerProgressView::Next(
            PointerMigrationView { action: PointerAction::RemoveFile, ..run },
        ),
        run.action == PointerAction::RemoveFile ==> pointer_step(run, PointerReply::Done)
            == PointerProgressView::Next(
            PointerMigrationView { action: PointerAction::SyncDirectory, ..run },
        ),
        run.action == PointerAction::SyncDirectory ==> pointer_step(run, PointerReply::Done)
            == PointerProgressView::End(Ok(())),
{
}

/// A migration is counted by its name, and a record of that name that says
/// anything else is a conflict.
pub proof fn law_recorded_migrations_are_counted(
    recorded: Seq<StateMigration>,
    migration: MigrationView,
    more: StateMigration,
)
    ensures
        recorded_count(Seq::empty(), migration) == Some(0nat),
        recorded_count(recorded, migration) matches Some(count) ==> (more.migration_id@
            != migration.migration_id ==> recorded_count(recorded.push(more), migration) == Some(
            count,
        )) && (more@ == migration ==> recorded_count(recorded.push(more), migration) == Some(
            count + 1,
        )) && (more.migration_id@ == migration.migration_id && more@ != migration ==> recorded_count(
            recorded.push(more),
            migration,
        ) is None),
{
    assert(recorded.push(more).drop_last() =~= recorded);
}

} // verus!
