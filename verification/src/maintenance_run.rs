//! A run of ledger maintenance: which step follows which, what is checked in
//! between, and what is closed after a success or a failure.

use vstd::prelude::*;

use crate::ledger_maintenance::{
    admit_ledger, admit_restore, already_imported, check_backup_projection,
    check_backup_unchanged, check_import_source, check_restore_source, check_restore_target,
    check_restored_projection, check_restored_state, decide_import, described, distinct_bytes,
    distinct_objects, failure, finish, first_occurrence, import_receipt, import_source_matches,
    only_imported, optional_backup, optional_identity, plan_restore_artifact, receipt, receipt_of,
    references, request_valid, rule_failure, validate_request, verify_receipt, ArtifactReference,
    ArtifactReferenceView, BackupBinding, BackupBindingView, DatabaseBackup, DatabaseBackupView,
    ImportDecision, LedgerMaintenanceFailure, LedgerMaintenanceFailureView,
    LedgerMaintenanceOperation, LedgerMaintenanceReceipt, LedgerMaintenanceReceiptView,
    LedgerMaintenanceRequest, LedgerSourceIdentity, LedgerSourceIdentityView, LedgerStorageStatus,
    LedgerStorageStatusView, MigrationRecord, RestoreAdmission, RestoreArtifact,
};

verus! {

/// The next thing to do in a maintenance run.
#[derive(Debug, Clone, Copy, PartialEq, Eq, Structural)]
pub enum MaintenanceAction {
    AcquireOwner,
    /// Take the ledger's lock.
    AcquireLedger,
    /// Open the database and the artifacts, digest the state and read which
    /// storage the ledger has.
    OpenRoot,
    /// Read the ledger from its segment files.
    ReadSource,
    /// Read the ledger from the database.
    ReadFormal,
    /// List the files that belong into a backup.
    ListMaterial,
    WriteBackup,
    /// Compare the target's path with the root and with the backup.
    ComparePaths,
    VerifyBackup,
    /// Verify the backup once more before it is opened.
    VerifyBackupAgain,
    /// Decode what the backup is bound to.
    DecodeBinding,
    /// Open the backup, digest its state and take its ledger's lock.
    OpenArchive,
    ReadArchiveStatus,
    ReadArchiveSource,
    ReadArchiveFormal,
    CloseArchive,
    /// Make the record of the import.
    MakeRecord,
    /// Import the segments; a rehearsal changes nothing.
    ImportLedger,
    FindTarget,
    CreateTarget,
    AcquireTargetOwner,
    /// Copy the backup into the target and open the target's artifacts.
    RestoreBackup,
    /// Check the totals against the limits and restore the next artifact.
    RestoreArtifact,
    /// Open the restored database and digest its state.
    OpenTarget,
    AcquireTargetLedger,
    ReadTargetStatus,
    ReadTargetSource,
    ReadTargetFormal,
    CloseTargetLedger,
    CloseTargetOwner,
    CloseLedger,
    CloseOwner,
}

/// What an action gave.
#[derive(Debug)]
pub enum MaintenanceReply {
    Done,
    Failed(LedgerMaintenanceFailure),
    Opened { state_sha256: String, ledger: LedgerStorageStatus },
    Digest(String),
    Status(LedgerStorageStatus),
    Source { identity: LedgerSourceIdentity, artifacts: Vec<ArtifactReference> },
    Artifacts(Vec<ArtifactReference>),
    Backup(DatabaseBackup),
    /// What a backup is bound to, where that could be decoded.
    Binding(Option<BackupBinding>),
    Record(MigrationRecord),
    Exists(bool),
}

pub type MaintenanceOutcome = Result<LedgerMaintenanceReceipt, LedgerMaintenanceFailure>;

pub type MaintenanceOutcomeView = Result<
    LedgerMaintenanceReceiptView,
    LedgerMaintenanceFailureView,
>;

pub open spec fn outcome_view(outcome: MaintenanceOutcome) -> MaintenanceOutcomeView {
    match outcome {
        Ok(receipt) => Ok(receipt@),
        Err(failure) => Err(failure@),
    }
}

/// A run in progress.
#[derive(Debug)]
pub struct MaintenanceRun {
    pub operation: LedgerMaintenanceOperation,
    pub action: MaintenanceAction,
    /// The storage of the root's ledger.
    pub ledger: LedgerStorageStatus,
    /// The digest of the root's state.
    pub state_sha256: String,
    /// The backup that was written or verified.
    pub backup: Option<DatabaseBackup>,
    /// What the backup is to be bound to, later what it is bound to.
    pub binding: Option<BackupBinding>,
    /// The digest of the state in the copy that is being compared.
    pub copy_sha256: String,
    /// The storage of the ledger in the copy that is being compared.
    pub copy_ledger: LedgerStorageStatus,
    /// The artifact that is to be restored.
    pub artifact: usize,
    /// The bytes of the artifacts up to and with this one.
    pub artifact_bytes: u64,
    /// The objects of the artifacts up to and with this one.
    pub artifact_objects: usize,
    /// How the run ends, once that is known.
    pub outcome: Option<MaintenanceOutcome>,
}

#[verifier::ext_equal]
pub struct MaintenanceRunView {
    pub operation: LedgerMaintenanceOperation,
    pub action: MaintenanceAction,
    pub ledger: LedgerStorageStatusView,
    pub state_sha256: Seq<char>,
    pub backup: Option<DatabaseBackupView>,
    pub binding: Option<BackupBindingView>,
    pub copy_sha256: Seq<char>,
    pub copy_ledger: LedgerStorageStatusView,
    pub artifact: int,
    pub artifact_bytes: int,
    pub artifact_objects: int,
    pub outcome: Option<MaintenanceOutcomeView>,
}

pub open spec fn optional_binding(binding: Option<BackupBinding>) -> Option<BackupBindingView> {
    match binding {
        Some(binding) => Some(binding@),
        None => None,
    }
}

impl View for MaintenanceRun {
    type V = MaintenanceRunView;

    open spec fn view(&self) -> MaintenanceRunView {
        MaintenanceRunView {
            operation: self.operation,
            action: self.action,
            ledger: self.ledger@,
            state_sha256: self.state_sha256@,
            backup: optional_backup(self.backup),
            binding: optional_binding(self.binding),
            copy_sha256: self.copy_sha256@,
            copy_ledger: self.copy_ledger@,
            artifact: self.artifact as int,
            artifact_bytes: self.artifact_bytes as int,
            artifact_objects: self.artifact_objects as int,
            outcome: match self.outcome {
                Some(outcome) => Some(outcome_view(outcome)),
                None => None,
            },
        }
    }
}

/// A run that goes on, or its result.
#[derive(Debug)]
pub enum MaintenanceProgress {
    Next(MaintenanceRun),
    End(MaintenanceOutcome),
}

pub enum MaintenanceProgressView {
    Next(MaintenanceRunView),
    End(MaintenanceOutcomeView),
}

impl View for MaintenanceProgress {
    type V = MaintenanceProgressView;

    open spec fn view(&self) -> MaintenanceProgressView {
        match *self {
            MaintenanceProgress::Next(run) => MaintenanceProgressView::Next(run@),
            MaintenanceProgress::End(outcome) => MaintenanceProgressView::End(outcome_view(outcome)),
        }
    }
}

/// The action closes what an earlier action took.
pub open spec fn closes(action: MaintenanceAction) -> bool {
    action == MaintenanceAction::CloseTargetLedger || action == MaintenanceAction::CloseTargetOwner
        || action == MaintenanceAction::CloseLedger || action == MaintenanceAction::CloseOwner
}

/// The action comes after a backup was written or verified.
pub open spec fn follows_backup(action: MaintenanceAction) -> bool {
    match action {
        MaintenanceAction::VerifyBackupAgain
        | MaintenanceAction::DecodeBinding => true,
        _ => follows_binding(action),
    }
}

/// The action comes after it is known what the backup is bound to.
pub open spec fn follows_binding(action: MaintenanceAction) -> bool {
    match action {
        MaintenanceAction::OpenArchive
        | MaintenanceAction::ReadArchiveStatus
        | MaintenanceAction::ReadArchiveSource
        | MaintenanceAction::ReadArchiveFormal
        | MaintenanceAction::CloseArchive
        | MaintenanceAction::MakeRecord
        | MaintenanceAction::ImportLedger
        | MaintenanceAction::FindTarget
        | MaintenanceAction::CreateTarget
        | MaintenanceAction::AcquireTargetOwner => true,
        _ => follows_target(action),
    }
}

/// The action works in the target of a restore.
pub open spec fn follows_target(action: MaintenanceAction) -> bool {
    match action {
        MaintenanceAction::RestoreBackup
        | MaintenanceAction::RestoreArtifact
        | MaintenanceAction::OpenTarget
        | MaintenanceAction::AcquireTargetLedger
        | MaintenanceAction::ReadTargetStatus
        | MaintenanceAction::ReadTargetSource
        | MaintenanceAction::ReadTargetFormal => true,
        _ => false,
    }
}

/// The operation reads a backup.
pub open spec fn uses_backup(operation: LedgerMaintenanceOperation) -> bool {
    operation == LedgerMaintenanceOperation::DryRun || operation
        == LedgerMaintenanceOperation::Import || operation == LedgerMaintenanceOperation::Restore
}

pub open spec fn run_wf(run: MaintenanceRunView) -> bool {
    &&& closes(run.action) ==> run.outcome is Some
    &&& run.outcome is Some ==> closes(run.action) || (run.action == MaintenanceAction::CloseArchive
        && run.outcome->0 is Err)
    &&& follows_backup(run.action) ==> run.backup is Some
    &&& follows_binding(run.action) ==> run.binding is Some
    &&& run.action == MaintenanceAction::ReadSource && uses_backup(run.operation) ==> run.backup
        is Some && run.binding is Some
    &&& run.action == MaintenanceAction::ReadSource && run.operation
        == LedgerMaintenanceOperation::Restore ==> run.state_sha256
        == (run.binding->0).state_sha256 && run.ledger == (run.binding->0).ledger
    &&& run.action == MaintenanceAction::RestoreArtifact ==> {
        let list = (run.binding->0).artifacts;
        &&& 0 <= run.artifact < list.len()
        &&& run.artifact_bytes == distinct_bytes(list.take(run.artifact + 1))
        &&& run.artifact_objects == distinct_objects(list.take(run.artifact + 1))
    }
}

/// The reply answers the action.
pub open spec fn maintenance_reply_fits(action: MaintenanceAction, reply: MaintenanceReply) -> bool {
    reply is Failed || match action {
        MaintenanceAction::OpenRoot => reply is Opened,
        MaintenanceAction::ReadSource
        | MaintenanceAction::ReadArchiveSource
        | MaintenanceAction::ReadTargetSource => reply is Source,
        MaintenanceAction::ReadFormal
        | MaintenanceAction::ReadArchiveFormal
        | MaintenanceAction::ReadTargetFormal => reply is Artifacts,
        MaintenanceAction::WriteBackup
        | MaintenanceAction::VerifyBackup
        | MaintenanceAction::VerifyBackupAgain => reply is Backup,
        MaintenanceAction::DecodeBinding => reply is Binding,
        MaintenanceAction::OpenArchive
        | MaintenanceAction::OpenTarget => reply is Digest,
        MaintenanceAction::ReadArchiveStatus
        | MaintenanceAction::ReadTargetStatus
        | MaintenanceAction::ImportLedger => reply is Status,
        MaintenanceAction::MakeRecord => reply is Record,
        MaintenanceAction::FindTarget => reply is Exists,
        _ => reply is Done,
    }
}

/// The first cleanup once the run ended at this action.
pub open spec fn cleanup_after(action: MaintenanceAction) -> MaintenanceAction {
    match action {
        MaintenanceAction::AcquireLedger
        | MaintenanceAction::CloseLedger => MaintenanceAction::CloseOwner,
        MaintenanceAction::ReadArchiveStatus
        | MaintenanceAction::ReadArchiveSource
        | MaintenanceAction::ReadArchiveFormal => MaintenanceAction::CloseArchive,
        MaintenanceAction::RestoreBackup
        | MaintenanceAction::RestoreArtifact
        | MaintenanceAction::OpenTarget
        | MaintenanceAction::AcquireTargetLedger
        | MaintenanceAction::CloseTargetLedger => MaintenanceAction::CloseTargetOwner,
        MaintenanceAction::ReadTargetStatus
        | MaintenanceAction::ReadTargetSource
        | MaintenanceAction::ReadTargetFormal => MaintenanceAction::CloseTargetLedger,
        _ => MaintenanceAction::CloseLedger,
    }
}

/// The run's work is over; what it holds is closed next.
pub open spec fn settled(
    run: MaintenanceRunView,
    outcome: MaintenanceOutcomeView,
) -> MaintenanceRunView {
    MaintenanceRunView { action: cleanup_after(run.action), outcome: Some(outcome), ..run }
}

pub open spec fn refused(run: MaintenanceRunView, code: &str, operation: &str) -> MaintenanceRunView {
    settled(run, Err(rule_failure(code@, operation@)))
}

/// An outcome joined with that of the cleanup after it.
pub open spec fn joined_outcome(
    outcome: MaintenanceOutcomeView,
    reply: MaintenanceReply,
) -> MaintenanceOutcomeView {
    match (outcome, reply) {
        (Ok(_), MaintenanceReply::Failed(error)) => Err(error@),
        (Err(original), MaintenanceReply::Failed(error)) => Err(
            LedgerMaintenanceFailureView {
                cleanup: original.cleanup.push(described(error@.cause, error@.cleanup)),
                ..original
            },
        ),
        _ => outcome,
    }
}

/// What a ledger with its artifacts projects to.
pub open spec fn projected(
    ledger: LedgerStorageStatusView,
    state_sha256: Seq<char>,
    source: Option<LedgerSourceIdentityView>,
    artifacts: Seq<ArtifactReference>,
) -> BackupBindingView {
    BackupBindingView { ledger, state_sha256, source, artifacts: references(artifacts) }
}

/// What follows once the root is open.
pub open spec fn after_open(run: MaintenanceRunView) -> MaintenanceRunView {
    let next = |action: MaintenanceAction| MaintenanceRunView { action, ..run };
    let missing = run.ledger == LedgerStorageStatusView::Missing;
    if run.ledger == LedgerStorageStatusView::Candidate {
        refused(run, "candidate_requires_explicit_disposition", "maintain_runtime_ledger")
    } else {
        match run.operation {
            LedgerMaintenanceOperation::Verify => if missing {
                next(MaintenanceAction::ReadSource)
            } else {
                settled(run, Ok(receipt_of("verified-sqlite", run.ledger, None)))
            },
            LedgerMaintenanceOperation::Backup => if missing {
                next(MaintenanceAction::ReadSource)
            } else {
                next(MaintenanceAction::ReadFormal)
            },
            LedgerMaintenanceOperation::Restore => next(MaintenanceAction::ComparePaths),
            _ => next(MaintenanceAction::VerifyBackup),
        }
    }
}

/// What follows once the root's segments are read.
pub open spec fn after_source(
    run: MaintenanceRunView,
    identity: LedgerSourceIdentityView,
    artifacts: Seq<ArtifactReference>,
) -> MaintenanceRunView {
    match run.operation {
        LedgerMaintenanceOperation::Verify => settled(
            run,
            Ok(
                receipt_of(
                    if run.ledger == LedgerStorageStatusView::Missing {
                        "verified-segment"
                    } else {
                        "verified-sqlite"
                    },
                    run.ledger,
                    None,
                ),
            ),
        ),
        LedgerMaintenanceOperation::Backup => MaintenanceRunView {
            action: MaintenanceAction::ListMaterial,
            binding: Some(projected(run.ledger, run.state_sha256, Some(identity), artifacts)),
            ..run
        },
        LedgerMaintenanceOperation::Restore => if (run.binding->0).source == Some(identity) {
            MaintenanceRunView { action: MaintenanceAction::FindTarget, ..run }
        } else {
            refused(run, "restore_source_changed", "admit_database_restore")
        },
        _ => if import_source_matches(run.binding->0, identity) {
            MaintenanceRunView { action: MaintenanceAction::MakeRecord, ..run }
        } else {
            refused(run, "migration_backup_source_mismatch", "import_segment_ledger")
        },
    }
}

/// What follows once the backup holds what it is bound to.
pub open spec fn after_archive(run: MaintenanceRunView) -> MaintenanceRunView {
    let next = |action: MaintenanceAction| MaintenanceRunView { action, ..run };
    let expected = run.binding->0;
    match run.operation {
        LedgerMaintenanceOperation::Restore => if run.state_sha256 != expected.state_sha256 {
            refused(run, "restore_state_has_advanced", "admit_database_restore")
        } else if expected.ledger == LedgerStorageStatusView::Missing && run.ledger
            == LedgerStorageStatusView::Missing {
            next(MaintenanceAction::ReadSource)
        } else if only_imported(expected, run.ledger, (run.backup->0).backup_id)
            || expected.ledger == run.ledger {
            next(MaintenanceAction::FindTarget)
        } else {
            refused(run, "restore_would_discard_new_events", "admit_database_restore")
        },
        LedgerMaintenanceOperation::DryRun
        | LedgerMaintenanceOperation::Import => next(MaintenanceAction::ReadSource),
        _ => settled(run, Ok(receipt_of("backed-up", run.ledger, run.backup))),
    }
}

/// What follows once the record of the import is made.
pub open spec fn after_record(run: MaintenanceRunView, record: MigrationRecord) -> MaintenanceRunView {
    if already_imported(run.ledger, record@) {
        settled(run, Ok(receipt_of("already-imported", run.ledger, run.backup)))
    } else if run.ledger == LedgerStorageStatusView::Missing && run.state_sha256 == (
    run.binding->0).state_sha256 {
        MaintenanceRunView { action: MaintenanceAction::ImportLedger, ..run }
    } else {
        refused(run, "migration_current_state_conflict", "import_segment_ledger")
    }
}

/// The first position, from one on, whose object occurs there for the first
/// time.
pub open spec fn next_object(list: Seq<ArtifactReferenceView>, from: int) -> int
    decreases list.len() - from,
{
    if from >= list.len() || first_occurrence(list, from) {
        from
    } else {
        next_object(list, from + 1)
    }
}

/// What follows once the artifacts before a position are restored.
pub open spec fn after_artifacts(run: MaintenanceRunView, from: int) -> MaintenanceRunView {
    let list = (run.binding->0).artifacts;
    let position = next_object(list, from);
    let upto = list.take(position + 1);
    if position >= list.len() {
        MaintenanceRunView { action: MaintenanceAction::OpenTarget, ..run }
    } else if distinct_bytes(upto) > u64::MAX {
        refused(run, "restore_artifact_size_overflow", "restore_artifact_material")
    } else {
        MaintenanceRunView {
            action: MaintenanceAction::RestoreArtifact,
            artifact: position,
            artifact_bytes: distinct_bytes(upto) as int,
            artifact_objects: distinct_objects(upto) as int,
            ..run
        }
    }
}

/// What follows once the restored target is read.
pub open spec fn after_target(run: MaintenanceRunView, actual: BackupBindingView) -> MaintenanceRunView {
    if actual == run.binding->0 {
        settled(run, Ok(receipt_of("restored", actual.ledger, run.backup)))
    } else {
        refused(run, "restored_projection_mismatch", "verify_restored_root")
    }
}

/// What follows once the backup is read.
pub open spec fn after_backup_read(
    run: MaintenanceRunView,
    actual: BackupBindingView,
) -> MaintenanceRunView {
    if actual == run.binding->0 {
        MaintenanceRunView { action: MaintenanceAction::CloseArchive, ..run }
    } else {
        refused(run, "backup_projection_mismatch", "verify_backup_binding")
    }
}

/// What follows an action that succeeded, other than one that closes.
pub open spec fn worked(run: MaintenanceRunView, reply: MaintenanceReply) -> MaintenanceRunView {
    let next = |action: MaintenanceAction| MaintenanceRunView { action, ..run };
    match (run.action, reply) {
        (MaintenanceAction::OpenRoot, MaintenanceReply::Opened { state_sha256, ledger }) => after_open(
            MaintenanceRunView { state_sha256: state_sha256@, ledger: ledger@, ..run },
        ),
        (MaintenanceAction::ReadSource, MaintenanceReply::Source { identity, artifacts }) =>
        after_source(run, identity@, artifacts@),
        (MaintenanceAction::ReadFormal, MaintenanceReply::Artifacts(artifacts)) =>
        MaintenanceRunView {
            action: MaintenanceAction::ListMaterial,
            binding: Some(projected(run.ledger, run.state_sha256, None, artifacts@)),
            ..run
        },
        (MaintenanceAction::WriteBackup, MaintenanceReply::Backup(backup))
        | (MaintenanceAction::VerifyBackup, MaintenanceReply::Backup(backup)) => MaintenanceRunView {
            action: MaintenanceAction::VerifyBackupAgain,
            backup: Some(backup@),
            ..run
        },
        (MaintenanceAction::VerifyBackupAgain, MaintenanceReply::Backup(backup)) => if backup@
            == run.backup->0 {
            next(MaintenanceAction::DecodeBinding)
        } else {
            refused(run, "backup_changed", "verify_backup_binding")
        },
        (MaintenanceAction::DecodeBinding, MaintenanceReply::Binding(binding)) => match binding {
            Some(binding) => MaintenanceRunView {
                action: MaintenanceAction::OpenArchive,
                binding: Some(binding@),
                ..run
            },
            None => refused(run, "backup_binding_invalid", "decode_backup_binding"),
        },
        (MaintenanceAction::OpenArchive, MaintenanceReply::Digest(digest)) => MaintenanceRunView {
            action: MaintenanceAction::ReadArchiveStatus,
            copy_sha256: digest@,
            ..run
        },
        (MaintenanceAction::ReadArchiveStatus, MaintenanceReply::Status(ledger)) =>
        MaintenanceRunView {
            action: if ledger@ == LedgerStorageStatusView::Missing {
                MaintenanceAction::ReadArchiveSource
            } else {
                MaintenanceAction::ReadArchiveFormal
            },
            copy_ledger: ledger@,
            ..run
        },
        (
            MaintenanceAction::ReadArchiveSource,
            MaintenanceReply::Source { identity, artifacts },
        ) => after_backup_read(
            run,
            projected(run.copy_ledger, run.copy_sha256, Some(identity@), artifacts@),
        ),
        (MaintenanceAction::ReadArchiveFormal, MaintenanceReply::Artifacts(artifacts)) =>
        after_backup_read(run, projected(run.copy_ledger, run.copy_sha256, None, artifacts@)),
        (MaintenanceAction::MakeRecord, MaintenanceReply::Record(record)) => after_record(
            run,
            record,
        ),
        (MaintenanceAction::ImportLedger, MaintenanceReply::Status(imported)) => settled(
            run,
            Ok(
                if run.operation == LedgerMaintenanceOperation::DryRun {
                    receipt_of("dry-run", run.ledger, run.backup)
                } else {
                    receipt_of("imported", imported@, run.backup)
                },
            ),
        ),
        (MaintenanceAction::FindTarget, MaintenanceReply::Exists(exists)) => if exists {
            refused(run, "restore_target_exists", "admit_database_restore")
        } else {
            next(MaintenanceAction::CreateTarget)
        },
        (MaintenanceAction::OpenTarget, MaintenanceReply::Digest(digest)) => if digest@ == (
        run.binding->0).state_sha256 {
            MaintenanceRunView {
                action: MaintenanceAction::AcquireTargetLedger,
                copy_sha256: digest@,
                ..run
            }
        } else {
            refused(run, "restored_state_mismatch", "verify_restored_root")
        },
        (MaintenanceAction::ReadTargetStatus, MaintenanceReply::Status(ledger)) =>
        MaintenanceRunView {
            action: if ledger@ == LedgerStorageStatusView::Missing {
                MaintenanceAction::ReadTargetSource
            } else {
                MaintenanceAction::ReadTargetFormal
            },
            copy_ledger: ledger@,
            ..run
        },
        (
            MaintenanceAction::ReadTargetSource,
            MaintenanceReply::Source { identity, artifacts },
        ) => after_target(
            run,
            projected(run.copy_ledger, run.copy_sha256, Some(identity@), artifacts@),
        ),
        (MaintenanceAction::ReadTargetFormal, MaintenanceReply::Artifacts(artifacts)) =>
        after_target(run, projected(run.copy_ledger, run.copy_sha256, None, artifacts@)),
        (MaintenanceAction::AcquireOwner, _) => next(MaintenanceAction::AcquireLedger),
        (MaintenanceAction::AcquireLedger, _) => next(MaintenanceAction::OpenRoot),
        (MaintenanceAction::ListMaterial, _) => next(MaintenanceAction::WriteBackup),
        (MaintenanceAction::ComparePaths, _) => next(MaintenanceAction::VerifyBackup),
        (MaintenanceAction::CreateTarget, _) => next(MaintenanceAction::AcquireTargetOwner),
        (MaintenanceAction::AcquireTargetOwner, _) => next(MaintenanceAction::RestoreBackup),
        (MaintenanceAction::RestoreBackup, _) => after_artifacts(run, 0),
        (MaintenanceAction::RestoreArtifact, _) => after_artifacts(run, run.artifact + 1),
        (_, _) => next(MaintenanceAction::ReadTargetStatus),
    }
}

/// The step after a reply.
pub open spec fn maintenance_step(
    run: MaintenanceRunView,
    reply: MaintenanceReply,
) -> MaintenanceProgressView {
    match (run.outcome, reply) {
        (Some(outcome), _) => if run.action == MaintenanceAction::CloseOwner {
            MaintenanceProgressView::End(joined_outcome(outcome, reply))
        } else {
            MaintenanceProgressView::Next(settled(run, joined_outcome(outcome, reply)))
        },
        (None, MaintenanceReply::Failed(error)) => if run.action == MaintenanceAction::AcquireOwner {
            MaintenanceProgressView::End(Err(error@))
        } else {
            MaintenanceProgressView::Next(settled(run, Err(error@)))
        },
        (None, _) => MaintenanceProgressView::Next(
            if run.action == MaintenanceAction::CloseArchive {
                after_archive(run)
            } else {
                worked(run, reply)
            },
        ),
    }
}

fn first_cleanup(action: MaintenanceAction) -> (cleanup: MaintenanceAction)
    ensures
        cleanup == cleanup_after(action),
{
    match action {
        MaintenanceAction::AcquireLedger
        | MaintenanceAction::CloseLedger => MaintenanceAction::CloseOwner,
        MaintenanceAction::ReadArchiveStatus
        | MaintenanceAction::ReadArchiveSource
        | MaintenanceAction::ReadArchiveFormal => MaintenanceAction::CloseArchive,
        MaintenanceAction::RestoreBackup
        | MaintenanceAction::RestoreArtifact
        | MaintenanceAction::OpenTarget
        | MaintenanceAction::AcquireTargetLedger
        | MaintenanceAction::CloseTargetLedger => MaintenanceAction::CloseTargetOwner,
        MaintenanceAction::ReadTargetStatus
        | MaintenanceAction::ReadTargetSource
        | MaintenanceAction::ReadTargetFormal => MaintenanceAction::CloseTargetLedger,
        _ => MaintenanceAction::CloseLedger,
    }
}

fn join_outcome(outcome: MaintenanceOutcome, reply: MaintenanceReply) -> (joined: MaintenanceOutcome)
    ensures
        outcome_view(joined) == joined_outcome(outcome_view(outcome), reply),
{
    let cleanup = match reply {
        MaintenanceReply::Failed(error) => Err(error),
        _ => Ok(()),
    };
    finish(outcome, cleanup)
}

impl MaintenanceRun {
    /// Begins a run on a request that names the paths its operation needs.
    pub fn start(request: &LedgerMaintenanceRequest) -> (result: Result<
        MaintenanceRun,
        LedgerMaintenanceFailure,
    >)
        ensures
            match result {
                Ok(run) => request_valid(*request) && run_wf(run@) && run@ == (MaintenanceRunView {
                    operation: request.operation,
                    action: MaintenanceAction::AcquireOwner,
                    ledger: LedgerStorageStatusView::Missing,
                    state_sha256: Seq::empty(),
                    backup: None,
                    binding: None,
                    copy_sha256: Seq::empty(),
                    copy_ledger: LedgerStorageStatusView::Missing,
                    artifact: 0,
                    artifact_bytes: 0,
                    artifact_objects: 0,
                    outcome: None,
                }),
                Err(error) => !request_valid(*request) && error@ == rule_failure(
                    "maintenance_arguments_invalid"@,
                    "validate_ledger_maintenance"@,
                ),
            },
    {
        validate_request(request)?;
        let run = MaintenanceRun {
            operation: request.operation,
            action: MaintenanceAction::AcquireOwner,
            ledger: LedgerStorageStatus::Missing,
            state_sha256: String::new(),
            backup: None,
            binding: None,
            copy_sha256: String::new(),
            copy_ledger: LedgerStorageStatus::Missing,
            artifact: 0,
            artifact_bytes: 0,
            artifact_objects: 0,
            outcome: None,
        };
        assert(run@.state_sha256 =~= Seq::<char>::empty());
        assert(run@.copy_sha256 =~= Seq::<char>::empty());
        Ok(run)
    }

    fn settle(&mut self, outcome: MaintenanceOutcome)
        ensures
            final(self)@ == settled(old(self)@, outcome_view(outcome)),
    {
        self.action = first_cleanup(self.action);
        self.outcome = Some(outcome);
    }

    fn refuse(&mut self, error: LedgerMaintenanceFailure)
        ensures
            final(self)@ == settled(old(self)@, Err(error@)),
    {
        self.settle(Err(error));
    }

    fn root_opened(&mut self)
        ensures
            final(self)@ == after_open(old(self)@),
    {
        if let Err(error) = admit_ledger(&self.ledger) {
            self.refuse(error);
            return;
        }
        let missing = self.ledger.is_missing();
        match self.operation {
            LedgerMaintenanceOperation::Verify => {
                if missing {
                    self.action = MaintenanceAction::ReadSource;
                } else {
                    let receipt = verify_receipt(self.ledger.copy());
                    self.settle(Ok(receipt));
                }
            },
            LedgerMaintenanceOperation::Backup => {
                self.action = if missing {
                    MaintenanceAction::ReadSource
                } else {
                    MaintenanceAction::ReadFormal
                };
            },
            LedgerMaintenanceOperation::Restore => {
                self.action = MaintenanceAction::ComparePaths;
            },
            _ => {
                self.action = MaintenanceAction::VerifyBackup;
            },
        }
    }

    fn source_read(&mut self, identity: LedgerSourceIdentity, artifacts: Vec<ArtifactReference>)
        requires
            uses_backup(old(self).operation) ==> old(self).binding is Some,
        ensures
            final(self)@ == after_source(old(self)@, identity@, artifacts@),
    {
        match self.operation {
            LedgerMaintenanceOperation::Verify => {
                let receipt = verify_receipt(self.ledger.copy());
                self.settle(Ok(receipt));
            },
            LedgerMaintenanceOperation::Backup => {
                self.binding = Some(
                    BackupBinding {
                        ledger: self.ledger.copy(),
                        state_sha256: self.state_sha256.clone(),
                        source: Some(identity),
                        artifacts,
                    },
                );
                self.action = MaintenanceAction::ListMaterial;
            },
            LedgerMaintenanceOperation::Restore => {
                match check_restore_source(self.binding.as_ref().unwrap(), &identity) {
                    Ok(()) => {
                        self.action = MaintenanceAction::FindTarget;
                    },
                    Err(error) => self.refuse(error),
                }
            },
            _ => {
                match check_import_source(self.binding.as_ref().unwrap(), &identity) {
                    Ok(()) => {
                        self.action = MaintenanceAction::MakeRecord;
                    },
                    Err(error) => self.refuse(error),
                }
            },
        }
    }

    fn archive_closed(&mut self)
        requires
            old(self).backup is Some,
            old(self).binding is Some,
        ensures
            final(self)@ == after_archive(old(self)@),
    {
        match self.operation {
            LedgerMaintenanceOperation::Restore => {
                let admission = admit_restore(
                    self.binding.as_ref().unwrap(),
                    &self.ledger,
                    self.state_sha256.as_str(),
                    self.backup.as_ref().unwrap().backup_id.as_str(),
                );
                match admission {
                    Ok(RestoreAdmission::CompareSource) => {
                        self.action = MaintenanceAction::ReadSource;
                    },
                    Ok(RestoreAdmission::Admitted) => {
                        self.action = MaintenanceAction::FindTarget;
                    },
                    Err(error) => self.refuse(error),
                }
            },
            LedgerMaintenanceOperation::DryRun | LedgerMaintenanceOperation::Import => {
                self.action = MaintenanceAction::ReadSource;
            },
            _ => {
                let receipt = receipt("backed-up", self.ledger.copy(), &self.backup);
                self.settle(Ok(receipt));
            },
        }
    }

    fn record_made(&mut self, record: MigrationRecord)
        requires
            old(self).binding is Some,
        ensures
            final(self)@ == after_record(old(self)@, record),
    {
        let decision = decide_import(
            &self.ledger,
            &record,
            self.state_sha256.as_str(),
            self.binding.as_ref().unwrap(),
        );
        match decision {
            Ok(ImportDecision::AlreadyImported) => {
                let receipt = receipt("already-imported", self.ledger.copy(), &self.backup);
                self.settle(Ok(receipt));
            },
            Ok(ImportDecision::Proceed) => {
                self.action = MaintenanceAction::ImportLedger;
            },
            Err(error) => self.refuse(error),
        }
    }

    /// Finds the next artifact to restore, from a position on.
    fn artifacts_restored(&mut self, from: usize, bytes_before: u64, objects_before: usize)
        requires
            old(self).binding is Some,
            from <= old(self).binding->0.artifacts.len(),
            bytes_before == distinct_bytes((old(self)@.binding->0).artifacts.take(from as int)),
            objects_before == distinct_objects((old(self)@.binding->0).artifacts.take(from as int)),
        ensures
            final(self)@ == after_artifacts(old(self)@, from as int),
    {
        let ghost before = *self;
        let ghost list = (before@.binding->0).artifacts;
        let mut position: usize = from;
        let count = self.binding.as_ref().unwrap().artifacts.len();
        while position < count
            invariant
                *self == before,
                before == *old(self),
                before.binding is Some,
                list == (before@.binding->0).artifacts,
                list == references((before.binding->0).artifacts@),
                count == list.len(),
                from <= position <= count,
                bytes_before == distinct_bytes(list.take(position as int)),
                objects_before == distinct_objects(list.take(position as int)),
                next_object(list, from as int) == next_object(list, position as int),
            decreases count - position,
        {
            let plan = plan_restore_artifact(
                &self.binding.as_ref().unwrap().artifacts,
                position,
                bytes_before,
                objects_before,
            );
            match plan {
                Ok(RestoreArtifact::Skip) => {
                    position += 1;
                },
                Ok(RestoreArtifact::Restore { total_bytes, objects }) => {
                    assert(first_occurrence(list, position as int));
                    self.action = MaintenanceAction::RestoreArtifact;
                    self.artifact = position;
                    self.artifact_bytes = total_bytes;
                    self.artifact_objects = objects;
                    return;
                },
                Err(error) => {
                    assert(first_occurrence(list, position as int));
                    self.refuse(error);
                    return;
                },
            }
        }
        self.action = MaintenanceAction::OpenTarget;
    }

    fn backup_read(
        &mut self,
        source: Option<LedgerSourceIdentity>,
        artifacts: Vec<ArtifactReference>,
    )
        requires
            old(self).binding is Some,
        ensures
            final(self)@ == after_backup_read(
                old(self)@,
                projected(
                    old(self).copy_ledger@,
                    old(self).copy_sha256@,
                    optional_identity(source),
                    artifacts@,
                ),
            ),
    {
        let actual = BackupBinding {
            ledger: self.copy_ledger.copy(),
            state_sha256: self.copy_sha256.clone(),
            source,
            artifacts,
        };
        match check_backup_projection(&actual, self.binding.as_ref().unwrap()) {
            Ok(()) => {
                self.action = MaintenanceAction::CloseArchive;
            },
            Err(error) => self.refuse(error),
        }
    }

    fn target_read(
        &mut self,
        source: Option<LedgerSourceIdentity>,
        artifacts: Vec<ArtifactReference>,
    )
        requires
            old(self).binding is Some,
        ensures
            final(self)@ == after_target(
                old(self)@,
                projected(
                    old(self).copy_ledger@,
                    old(self).copy_sha256@,
                    optional_identity(source),
                    artifacts@,
                ),
            ),
    {
        let actual = BackupBinding {
            ledger: self.copy_ledger.copy(),
            state_sha256: self.copy_sha256.clone(),
            source,
            artifacts,
        };
        match check_restored_projection(&actual, self.binding.as_ref().unwrap()) {
            Ok(()) => {
                let receipt = receipt("restored", actual.ledger, &self.backup);
                self.settle(Ok(receipt));
            },
            Err(error) => self.refuse(error),
        }
    }

    /// Takes an answer that is more than a success.
    fn answered(&mut self, reply: MaintenanceReply)
        requires
            run_wf(old(self)@),
            !(reply is Done),
            !(reply is Failed),
            maintenance_reply_fits(old(self).action, reply),
        ensures
            final(self)@ == worked(old(self)@, reply),
    {
        match reply {
            MaintenanceReply::Opened { state_sha256, ledger } => {
                self.state_sha256 = state_sha256;
                self.ledger = ledger;
                self.root_opened();
            },
            MaintenanceReply::Source { identity, artifacts } => match self.action {
                MaintenanceAction::ReadSource => self.source_read(identity, artifacts),
                MaintenanceAction::ReadArchiveSource => self.backup_read(Some(identity), artifacts),
                _ => self.target_read(Some(identity), artifacts),
            },
            MaintenanceReply::Artifacts(artifacts) => match self.action {
                MaintenanceAction::ReadFormal => {
                    self.binding = Some(
                        BackupBinding {
                            ledger: self.ledger.copy(),
                            state_sha256: self.state_sha256.clone(),
                            source: None,
                            artifacts,
                        },
                    );
                    self.action = MaintenanceAction::ListMaterial;
                },
                MaintenanceAction::ReadArchiveFormal => self.backup_read(None, artifacts),
                _ => self.target_read(None, artifacts),
            },
            MaintenanceReply::Backup(backup) => {
                if self.action == MaintenanceAction::VerifyBackupAgain {
                    match check_backup_unchanged(&backup, self.backup.as_ref().unwrap()) {
                        Ok(()) => {
                            self.action = MaintenanceAction::DecodeBinding;
                        },
                        Err(error) => self.refuse(error),
                    }
                } else {
                    self.backup = Some(backup);
                    self.action = MaintenanceAction::VerifyBackupAgain;
                }
            },
            MaintenanceReply::Binding(binding) => match binding {
                Some(binding) => {
                    self.binding = Some(binding);
                    self.action = MaintenanceAction::OpenArchive;
                },
                None => self.refuse(failure("backup_binding_invalid", "decode_backup_binding")),
            },
            MaintenanceReply::Digest(digest) => {
                if self.action == MaintenanceAction::OpenArchive {
                    self.copy_sha256 = digest;
                    self.action = MaintenanceAction::ReadArchiveStatus;
                } else {
                    match check_restored_state(digest.as_str(), self.binding.as_ref().unwrap()) {
                        Ok(()) => {
                            self.copy_sha256 = digest;
                            self.action = MaintenanceAction::AcquireTargetLedger;
                        },
                        Err(error) => self.refuse(error),
                    }
                }
            },
            MaintenanceReply::Status(ledger) => match self.action {
                MaintenanceAction::ImportLedger => {
                    let receipt = import_receipt(
                        self.operation,
                        self.ledger.copy(),
                        ledger,
                        &self.backup,
                    );
                    self.settle(Ok(receipt));
                },
                MaintenanceAction::ReadArchiveStatus => {
                    self.action = if ledger.is_missing() {
                        MaintenanceAction::ReadArchiveSource
                    } else {
                        MaintenanceAction::ReadArchiveFormal
                    };
                    self.copy_ledger = ledger;
                },
                _ => {
                    self.action = if ledger.is_missing() {
                        MaintenanceAction::ReadTargetSource
                    } else {
                        MaintenanceAction::ReadTargetFormal
                    };
                    self.copy_ledger = ledger;
                },
            },
            MaintenanceReply::Record(record) => self.record_made(record),
            MaintenanceReply::Exists(exists) => match check_restore_target(exists) {
                Ok(()) => {
                    self.action = MaintenanceAction::CreateTarget;
                },
                Err(error) => self.refuse(error),
            },
            _ => {},
        }
    }

    /// Takes a success that carries no answer.
    fn done(&mut self)
        requires
            run_wf(old(self)@),
            maintenance_reply_fits(old(self).action, MaintenanceReply::Done),
        ensures
            final(self)@ == worked(old(self)@, MaintenanceReply::Done),
    {
        match self.action {
            MaintenanceAction::AcquireOwner => {
                self.action = MaintenanceAction::AcquireLedger;
            },
            MaintenanceAction::AcquireLedger => {
                self.action = MaintenanceAction::OpenRoot;
            },
            MaintenanceAction::ListMaterial => {
                self.action = MaintenanceAction::WriteBackup;
            },
            MaintenanceAction::ComparePaths => {
                self.action = MaintenanceAction::VerifyBackup;
            },
            MaintenanceAction::CreateTarget => {
                self.action = MaintenanceAction::AcquireTargetOwner;
            },
            MaintenanceAction::AcquireTargetOwner => {
                self.action = MaintenanceAction::RestoreBackup;
            },
            MaintenanceAction::RestoreBackup => {
                self.artifacts_restored(0, 0, 0);
            },
            MaintenanceAction::RestoreArtifact => {
                let artifact = self.artifact;
                assert(artifact < (self.binding->0).artifacts.len());
                let bytes = self.artifact_bytes;
                let objects = self.artifact_objects;
                self.artifacts_restored(artifact + 1, bytes, objects);
            },
            _ => {
                self.action = MaintenanceAction::ReadTargetStatus;
            },
        }
    }

    /// Takes the reply to the current action.
    pub fn advance(self, reply: MaintenanceReply) -> (progress: MaintenanceProgress)
        requires
            run_wf(self@),
            maintenance_reply_fits(self.action, reply),
        ensures
            progress@ == maintenance_step(self@, reply),
            progress matches MaintenanceProgress::Next(run) ==> run_wf(run@),
    {
        let mut run = self;
        proof {
            lemma_step_keeps_wf(self@, reply);
        }
        if let Some(outcome) = run.outcome {
            let joined = join_outcome(outcome, reply);
            run.outcome = None;
            if run.action == MaintenanceAction::CloseOwner {
                return MaintenanceProgress::End(joined);
            }
            run.settle(joined);
            return MaintenanceProgress::Next(run);
        }
        match reply {
            MaintenanceReply::Failed(error) => {
                if run.action == MaintenanceAction::AcquireOwner {
                    return MaintenanceProgress::End(Err(error));
                }
                run.refuse(error);
            },
            MaintenanceReply::Done => {
                if run.action == MaintenanceAction::CloseArchive {
                    run.archive_closed();
                } else {
                    run.done();
                }
            },
            reply => run.answered(reply),
        }
        MaintenanceProgress::Next(run)
    }
}

proof fn lemma_next_object(list: Seq<ArtifactReferenceView>, from: int)
    requires
        0 <= from,
    ensures
        from <= next_object(list, from),
    decreases list.len() - from,
{
    if from < list.len() && !first_occurrence(list, from) {
        lemma_next_object(list, from + 1);
    }
}

proof fn lemma_step_keeps_wf(run: MaintenanceRunView, reply: MaintenanceReply)
    requires
        run_wf(run),
        maintenance_reply_fits(run.action, reply),
    ensures
        maintenance_step(run, reply) matches MaintenanceProgressView::Next(next) ==> run_wf(next),
{
    if run.action == MaintenanceAction::RestoreBackup {
        lemma_next_object((run.binding->0).artifacts, 0);
    }
    if run.action == MaintenanceAction::RestoreArtifact {
        lemma_next_object((run.binding->0).artifacts, run.artifact + 1);
    }
}

/// What a run takes and has to give back.
pub enum Holding {
    Owner,
    Ledger,
    Archive,
    TargetOwner,
    TargetLedger,
}

/// What a run holds while an action is performed.
pub open spec fn held(action: MaintenanceAction) -> Set<Holding> {
    match action {
        MaintenanceAction::AcquireOwner => Set::empty(),
        MaintenanceAction::AcquireLedger | MaintenanceAction::CloseOwner => set![Holding::Owner],
        MaintenanceAction::ReadArchiveStatus
        | MaintenanceAction::ReadArchiveSource
        | MaintenanceAction::ReadArchiveFormal
        | MaintenanceAction::CloseArchive => set![
            Holding::Owner,
            Holding::Ledger,
            Holding::Archive,
        ],
        MaintenanceAction::RestoreBackup
        | MaintenanceAction::RestoreArtifact
        | MaintenanceAction::OpenTarget
        | MaintenanceAction::AcquireTargetLedger
        | MaintenanceAction::CloseTargetOwner => set![
            Holding::Owner,
            Holding::Ledger,
            Holding::TargetOwner,
        ],
        MaintenanceAction::ReadTargetStatus
        | MaintenanceAction::ReadTargetSource
        | MaintenanceAction::ReadTargetFormal
        | MaintenanceAction::CloseTargetLedger => set![
            Holding::Owner,
            Holding::Ledger,
            Holding::TargetOwner,
            Holding::TargetLedger,
        ],
        _ => set![Holding::Owner, Holding::Ledger],
    }
}

/// What an action that succeeds takes.
pub open spec fn taken(action: MaintenanceAction) -> Set<Holding> {
    match action {
        MaintenanceAction::AcquireOwner => set![Holding::Owner],
        MaintenanceAction::AcquireLedger => set![Holding::Ledger],
        MaintenanceAction::OpenArchive => set![Holding::Archive],
        MaintenanceAction::AcquireTargetOwner => set![Holding::TargetOwner],
        MaintenanceAction::AcquireTargetLedger => set![Holding::TargetLedger],
        _ => Set::empty(),
    }
}

/// What an action gives back, whether it succeeds or not.
pub open spec fn given_back(action: MaintenanceAction) -> Set<Holding> {
    match action {
        MaintenanceAction::CloseArchive => set![Holding::Archive],
        MaintenanceAction::CloseTargetLedger => set![Holding::TargetLedger],
        MaintenanceAction::CloseTargetOwner => set![Holding::TargetOwner],
        MaintenanceAction::CloseLedger => set![Holding::Ledger],
        MaintenanceAction::CloseOwner => set![Holding::Owner],
        _ => Set::empty(),
    }
}

/// Whatever a run takes it gives back: every step holds what the step before
/// it held, with what that one took and without what it gave back, and a run
/// that ends holds nothing.
pub proof fn law_holdings_are_given_back(run: MaintenanceRunView, reply: MaintenanceReply)
    requires
        run_wf(run),
        maintenance_reply_fits(run.action, reply),
    ensures
        ({
            let kept = held(run.action).union(
                if reply is Failed {
                    Set::empty()
                } else {
                    taken(run.action)
                },
            ).difference(given_back(run.action));
            match maintenance_step(run, reply) {
                MaintenanceProgressView::Next(next) => held(next.action) =~= kept,
                MaintenanceProgressView::End(_) => kept =~= Set::empty(),
            }
        }),
{
}

/// A failure is answered with the failure that came first; a cleanup that
/// fails adds its words, and turns a success into a failure.
pub proof fn law_first_failure_is_answered(outcome: MaintenanceOutcomeView, reply: MaintenanceReply)
    ensures
        outcome matches Err(first) ==> (joined_outcome(outcome, reply) matches Err(answered)
            && answered.code == first.code && answered.operation == first.operation
            && answered.cause == first.cause && answered.warnings == first.warnings
            && first.cleanup.is_prefix_of(answered.cleanup)),
        outcome is Ok && reply is Failed ==> joined_outcome(outcome, reply) is Err,
        outcome is Ok && !(reply is Failed) ==> joined_outcome(outcome, reply) == outcome,
{
}

/// A backup is used, and answered as written, only after it was read back and
/// gave what it is bound to.
pub proof fn law_backup_is_read_back(run: MaintenanceRunView, reply: MaintenanceReply)
    requires
        run_wf(run),
        maintenance_reply_fits(run.action, reply),
        maintenance_step(run, reply) matches MaintenanceProgressView::Next(next) && next.action
            == MaintenanceAction::CloseArchive && next.outcome is None,
    ensures
        match (run.action, reply) {
            (
                MaintenanceAction::ReadArchiveSource,
                MaintenanceReply::Source { identity, artifacts },
            ) => run.binding == Some(
                projected(run.copy_ledger, run.copy_sha256, Some(identity@), artifacts@),
            ),
            (MaintenanceAction::ReadArchiveFormal, MaintenanceReply::Artifacts(artifacts)) =>
            run.binding == Some(projected(run.copy_ledger, run.copy_sha256, None, artifacts@)),
            _ => false,
        },
{
}

/// A restore looks for its target only while the root's state is the one that
/// was backed up, and its ledger holds nothing that the backup, or the import
/// of the backup's segments, does not hold.
pub proof fn law_restore_discards_nothing(run: MaintenanceRunView, reply: MaintenanceReply)
    requires
        run_wf(run),
        maintenance_reply_fits(run.action, reply),
        maintenance_step(run, reply) matches MaintenanceProgressView::Next(next) && next.action
            == MaintenanceAction::FindTarget,
    ensures
        ({
            let expected = run.binding->0;
            &&& run.state_sha256 == expected.state_sha256
            &&& match (run.action, reply) {
                (MaintenanceAction::CloseArchive, _) => only_imported(
                    expected,
                    run.ledger,
                    (run.backup->0).backup_id,
                ) || expected.ledger == run.ledger,
                (MaintenanceAction::ReadSource, MaintenanceReply::Source { identity, .. }) =>
                expected.ledger == run.ledger && expected.source == Some(identity@),
                _ => false,
            }
        }),
{
}

/// A restore makes its target only where nothing is yet, and is answered as a
/// success only after the target gave what the backup is bound to.
pub proof fn law_restored_target_is_fresh_and_equal(run: MaintenanceRunView, reply: MaintenanceReply)
    requires
        run_wf(run),
        maintenance_reply_fits(run.action, reply),
        run.operation == LedgerMaintenanceOperation::Restore,
        run.outcome is None,
    ensures
        maintenance_step(run, reply) matches MaintenanceProgressView::Next(next) && next.action
            == MaintenanceAction::CreateTarget ==> reply == MaintenanceReply::Exists(false),
        maintenance_step(run, reply) matches MaintenanceProgressView::Next(next)
            && follows_target(run.action) && (next.outcome matches Some(Ok(_))) ==> match (
            run.action,
            reply,
        ) {
            (
                MaintenanceAction::ReadTargetSource,
                MaintenanceReply::Source { identity, artifacts },
            ) => run.binding == Some(
                projected(run.copy_ledger, run.copy_sha256, Some(identity@), artifacts@),
            ),
            (MaintenanceAction::ReadTargetFormal, MaintenanceReply::Artifacts(artifacts)) =>
            run.binding == Some(projected(run.copy_ledger, run.copy_sha256, None, artifacts@)),
            _ => false,
        },
{
}

/// A run takes the owner, then the ledger, then opens the root; a candidate
/// ledger is refused whatever was asked for.
pub proof fn law_run_begins_in_order(run: MaintenanceRunView, reply: MaintenanceReply)
    requires
        run.outcome is None,
        !(reply is Failed),
    ensures
        run.action == MaintenanceAction::AcquireOwner ==> (maintenance_step(
            run,
            reply,
        ) matches MaintenanceProgressView::Next(next) && next.action
            == MaintenanceAction::AcquireLedger),
        run.action == MaintenanceAction::AcquireLedger ==> (maintenance_step(
            run,
            reply,
        ) matches MaintenanceProgressView::Next(next) && next.action == MaintenanceAction::OpenRoot),
        run.action == MaintenanceAction::OpenRoot ==> (reply matches MaintenanceReply::Opened {
            state_sha256,
            ledger,
        } ==> (maintenance_step(run, reply) matches MaintenanceProgressView::Next(next)
            && next.state_sha256 == state_sha256@ && next.ledger == ledger@ && (ledger@
            == LedgerStorageStatusView::Candidate ==> (next.outcome matches Some(Err(failure))
            && failure.code == "candidate_requires_explicit_disposition"@)) && (ledger@
            != LedgerStorageStatusView::Candidate && run.operation
            == LedgerMaintenanceOperation::Restore ==> next.action
            == MaintenanceAction::ComparePaths) && (ledger@ != LedgerStorageStatusView::Candidate
            && (run.operation == LedgerMaintenanceOperation::Import || run.operation
            == LedgerMaintenanceOperation::DryRun) ==> next.action
            == MaintenanceAction::VerifyBackup) && (ledger@ == LedgerStorageStatusView::Missing && (
        run.operation == LedgerMaintenanceOperation::Verify || run.operation
            == LedgerMaintenanceOperation::Backup) ==> next.action
            == MaintenanceAction::ReadSource) && (ledger@ is Ready && run.operation
            == LedgerMaintenanceOperation::Backup ==> next.action
            == MaintenanceAction::ReadFormal) && (ledger@ is Ready && run.operation
            == LedgerMaintenanceOperation::Verify ==> (next.outcome matches Some(Ok(receipt))
            && receipt.status == "verified-sqlite"@ && receipt.ledger == ledger@)))),
{
}

/// A verification of a ledger still in segments reads its source and says so.
pub proof fn law_segments_are_verified(
    run: MaintenanceRunView,
    identity: LedgerSourceIdentity,
    artifacts: Vec<ArtifactReference>,
)
    requires
        run.action == MaintenanceAction::ReadSource,
        run.operation == LedgerMaintenanceOperation::Verify,
        run.ledger == LedgerStorageStatusView::Missing,
        run.outcome is None,
    ensures
        maintenance_step(run, MaintenanceReply::Source { identity, artifacts }) matches MaintenanceProgressView::Next(
            next,
        ) && next.action == MaintenanceAction::CloseLedger && (next.outcome matches Some(Ok(receipt))
            && receipt.status == "verified-segment"@ && receipt.backup_id is None
            && !receipt.activated),
{
}

/// A backup is bound to what the root holds at that moment.
pub proof fn law_backup_is_bound_to_the_root(
    run: MaintenanceRunView,
    identity: LedgerSourceIdentity,
    artifacts: Vec<ArtifactReference>,
)
    requires
        run.operation == LedgerMaintenanceOperation::Backup,
        run.outcome is None,
    ensures
        run.action == MaintenanceAction::ReadSource ==> (maintenance_step(
            run,
            MaintenanceReply::Source { identity, artifacts },
        ) matches MaintenanceProgressView::Next(next) && next.action
            == MaintenanceAction::ListMaterial && (next.binding matches Some(binding)
            && binding.ledger == run.ledger && binding.state_sha256 == run.state_sha256
            && binding.source == Some(identity@) && binding.artifacts.len() == artifacts@.len() && (
        forall|i: int|
            0 <= i < artifacts@.len() ==> (#[trigger] binding.artifacts[i]) == artifacts@[i]@))),
        run.action == MaintenanceAction::ReadFormal ==> (maintenance_step(
            run,
            MaintenanceReply::Artifacts(artifacts),
        ) matches MaintenanceProgressView::Next(next) && next.action
            == MaintenanceAction::ListMaterial && (next.binding matches Some(binding)
            && binding.ledger == run.ledger && binding.state_sha256 == run.state_sha256
            && binding.source is None && binding.artifacts.len() == artifacts@.len() && (forall|
            i: int,
        |
            0 <= i < artifacts@.len() ==> (#[trigger] binding.artifacts[i]) == artifacts@[i]@))),
{
}

/// An import runs only on a root without a ledger whose state is the one that
/// was backed up; a dry run tells the ledger as it is, an import the one that
/// it made, and an import that was made already is told as that.
pub proof fn law_import_needs_the_backed_up_state(
    run: MaintenanceRunView,
    record: MigrationRecord,
    imported: LedgerStorageStatus,
)
    requires
        run.outcome is None,
        run.binding is Some,
    ensures
        run.action == MaintenanceAction::MakeRecord ==> (maintenance_step(
            run,
            MaintenanceReply::Record(record),
        ) matches MaintenanceProgressView::Next(next) && (next.action
            == MaintenanceAction::ImportLedger <==> run.ledger == LedgerStorageStatusView::Missing
            && run.state_sha256 == (run.binding->0).state_sha256) && ((next.outcome matches Some(
            Ok(_),
        )) <==> (run.ledger matches LedgerStorageStatusView::Ready { migration: Some(made), .. }
            && made == record@))),
        run.action == MaintenanceAction::ImportLedger ==> (maintenance_step(
            run,
            MaintenanceReply::Status(imported),
        ) matches MaintenanceProgressView::Next(next) && (next.outcome matches Some(Ok(receipt))
            && (run.operation == LedgerMaintenanceOperation::DryRun ==> receipt.status
            == "dry-run"@ && receipt.ledger == run.ledger) && (run.operation
            == LedgerMaintenanceOperation::Import ==> receipt.status == "imported"@
            && receipt.ledger == imported@))),
{
}

/// A restore goes on only from the state that was backed up, and only when the
/// ledger holds nothing that the backup lacks; everything else is refused.
pub proof fn law_restore_is_refused_on_newer_state(run: MaintenanceRunView)
    requires
        run.action == MaintenanceAction::CloseArchive,
        run.operation == LedgerMaintenanceOperation::Restore,
        run.outcome is None,
        run.binding is Some,
        run.backup is Some,
    ensures
        run.state_sha256 != (run.binding->0).state_sha256 ==> (maintenance_step(
            run,
            MaintenanceReply::Done,
        ) matches MaintenanceProgressView::Next(next) && (next.outcome matches Some(Err(failure))
            && failure.code == "restore_state_has_advanced"@)),
        run.state_sha256 == (run.binding->0).state_sha256 && run.ledger is Ready && (
        run.binding->0).ledger == run.ledger ==> (maintenance_step(
            run,
            MaintenanceReply::Done,
        ) matches MaintenanceProgressView::Next(next) && next.action
            == MaintenanceAction::FindTarget),
        run.state_sha256 == (run.binding->0).state_sha256 && run.ledger
            == LedgerStorageStatusView::Missing && (run.binding->0).ledger == run.ledger ==> (
        maintenance_step(run, MaintenanceReply::Done) matches MaintenanceProgressView::Next(next)
            && next.action == MaintenanceAction::ReadSource),
        run.state_sha256 == (run.binding->0).state_sha256 && (run.binding->0).ledger is Ready && (
        run.binding->0).ledger != run.ledger ==> (maintenance_step(
            run,
            MaintenanceReply::Done,
        ) matches MaintenanceProgressView::Next(next) && (next.outcome matches Some(Err(failure))
            && failure.code == "restore_would_discard_new_events"@)),
{
}

/// The next object to restore is the first one from there on whose key has not
/// occurred, so that every object is restored and none twice.
pub proof fn law_next_object_passes_over_repeats(list: Seq<ArtifactReferenceView>, from: int, at: int)
    requires
        0 <= from,
    ensures
        next_object(list, from) >= from,
        next_object(list, from) < list.len() ==> forall|i: int|
            0 <= i < next_object(list, from) ==> (#[trigger] list[i]).object_key
                != list[next_object(list, from)].object_key,
        from <= at < next_object(list, from) && at < list.len() ==> exists|i: int|
            0 <= i < at && (#[trigger] list[i]).object_key == list[at].object_key,
    decreases list.len() - from,
{
    if from < list.len() && !first_occurrence(list, from) {
        law_next_object_passes_over_repeats(list, from + 1, at);
    }
}

/// The bytes and objects that a restore reports with an artifact are those of
/// the distinct objects up to it.
pub proof fn law_restored_objects_are_counted(run: MaintenanceRunView)
    requires
        run_wf(run),
        run.action == MaintenanceAction::RestoreBackup || run.action
            == MaintenanceAction::RestoreArtifact,
        run.outcome is None,
    ensures
        maintenance_step(run, MaintenanceReply::Done) matches MaintenanceProgressView::Next(next)
            && (next.action == MaintenanceAction::RestoreArtifact ==> next.artifact_bytes
            == distinct_bytes((run.binding->0).artifacts.take(next.artifact + 1))
            && next.artifact_objects == distinct_objects(
            (run.binding->0).artifacts.take(next.artifact + 1),
        ) && (run.action == MaintenanceAction::RestoreArtifact ==> next.artifact > run.artifact)
            && 0 <= next.artifact < (run.binding->0).artifacts.len()),
{
    let from = if run.action == MaintenanceAction::RestoreBackup {
        0
    } else {
        run.artifact + 1
    };
    law_next_object_passes_over_repeats((run.binding->0).artifacts, from, from);
}

/// A backup that reads back differently the second time, whose binding cannot
/// be read, or which holds something else than its binding says, is refused.
pub proof fn law_doubtful_backup_is_refused(
    run: MaintenanceRunView,
    backup: DatabaseBackup,
    artifacts: Vec<ArtifactReference>,
)
    requires
        run.outcome is None,
        run.backup is Some,
    ensures
        run.action == MaintenanceAction::VerifyBackupAgain ==> (maintenance_step(
            run,
            MaintenanceReply::Backup(backup),
        ) matches MaintenanceProgressView::Next(next) && (next.action
            == MaintenanceAction::DecodeBinding <==> Some(backup@) == run.backup) && ((
        next.outcome matches Some(Err(_))) <==> Some(backup@) != run.backup)),
        run.action == MaintenanceAction::DecodeBinding ==> (maintenance_step(
            run,
            MaintenanceReply::Binding(None),
        ) matches MaintenanceProgressView::Next(next) && (next.outcome matches Some(Err(_)))),
        run.action == MaintenanceAction::ReadArchiveFormal && run.binding is Some && (
        run.copy_ledger != (run.binding->0).ledger || run.copy_sha256 != (
        run.binding->0).state_sha256 || (run.binding->0).source is Some) ==> (maintenance_step(
            run,
            MaintenanceReply::Artifacts(artifacts),
        ) matches MaintenanceProgressView::Next(next) && (next.outcome matches Some(Err(failure))
            && failure.code == "backup_projection_mismatch"@)),
{
}

/// A failed step is answered with its failure after everything taken was given
/// back; without an owner there is nothing to give back.
pub proof fn law_failed_step_is_cleaned_up(
    run: MaintenanceRunView,
    failure: LedgerMaintenanceFailure,
)
    requires
        run.outcome is None,
    ensures
        run.action == MaintenanceAction::AcquireOwner ==> maintenance_step(
            run,
            MaintenanceReply::Failed(failure),
        ) == MaintenanceProgressView::End(Err(failure@)),
        run.action != MaintenanceAction::AcquireOwner ==> (maintenance_step(
            run,
            MaintenanceReply::Failed(failure),
        ) matches MaintenanceProgressView::Next(next) && next.outcome == Some(
            Err::<LedgerMaintenanceReceiptView, LedgerMaintenanceFailureView>(failure@),
        )),
        run.action == MaintenanceAction::ReadTargetStatus ==> (maintenance_step(
            run,
            MaintenanceReply::Failed(failure),
        ) matches MaintenanceProgressView::Next(first) && first.action
            == MaintenanceAction::CloseTargetLedger && (maintenance_step(
            first,
            MaintenanceReply::Done,
        ) matches MaintenanceProgressView::Next(second) && second.action
            == MaintenanceAction::CloseTargetOwner && (maintenance_step(
            second,
            MaintenanceReply::Done,
        ) matches MaintenanceProgressView::Next(third) && third.action
            == MaintenanceAction::CloseLedger && (maintenance_step(
            third,
            MaintenanceReply::Done,
        ) matches MaintenanceProgressView::Next(last) && last.action
            == MaintenanceAction::CloseOwner && maintenance_step(last, MaintenanceReply::Done)
            == MaintenanceProgressView::End(Err(failure@)))))),
{
}

} // verus!
