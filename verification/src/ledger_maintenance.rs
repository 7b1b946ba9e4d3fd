//! Offline maintenance of the ledger: what a request must name, and when an
//! import, a backup or a restore is admitted.

use vstd::prelude::*;
use vstd::string::StringExecFns;

use crate::text::{
    copy_texts, optional_text, same_optional_text, same_text, same_texts, texts,
};

verus! {

#[derive(Debug, Clone, Copy, PartialEq, Eq, Structural)]
pub enum LedgerMaintenanceOperation {
    DryRun,
    Import,
    Verify,
    Backup,
    Restore,
}

/// What a maintenance run may read at most.
#[derive(Debug, Clone, Copy, PartialEq, Eq, Structural)]
pub struct MaintenanceLimits {
    pub max_bytes: u64,
    pub max_entries: u64,
    pub max_duration_ms: u64,
}

#[derive(Debug, Clone)]
pub struct LedgerMaintenanceRequest {
    pub operation: LedgerMaintenanceOperation,
    pub backup: Option<String>,
    pub target: Option<String>,
    pub artifact_root: Option<String>,
    pub limits: MaintenanceLimits,
}

/// The record of an import of the segment ledger.
#[derive(Debug, Clone)]
pub struct MigrationRecord {
    pub cutover_sequence: u64,
    pub backup_sha256: String,
    pub source_sha256: String,
    /// Everything else the record carries, encoded.
    pub remainder: String,
}

/// The value of a migration record.
pub struct MigrationRecordView {
    pub cutover_sequence: u64,
    pub backup_sha256: Seq<char>,
    pub source_sha256: Seq<char>,
    pub remainder: Seq<char>,
}

impl View for MigrationRecord {
    type V = MigrationRecordView;

    open spec fn view(&self) -> MigrationRecordView {
        MigrationRecordView {
            cutover_sequence: self.cutover_sequence,
            backup_sha256: self.backup_sha256@,
            source_sha256: self.source_sha256@,
            remainder: self.remainder@,
        }
    }
}

impl MigrationRecord {
    pub fn copy(&self) -> (copy: Self)
        ensures
            copy@ == self@,
    {
        MigrationRecord {
            cutover_sequence: self.cutover_sequence,
            backup_sha256: self.backup_sha256.clone(),
            source_sha256: self.source_sha256.clone(),
            remainder: self.remainder.clone(),
        }
    }

    pub fn same(&self, other: &Self) -> (same: bool)
        ensures
            same == (self@ == other@),
    {
        self.cutover_sequence == other.cutover_sequence && same_text(
            self.backup_sha256.as_str(),
            other.backup_sha256.as_str(),
        ) && same_text(self.source_sha256.as_str(), other.source_sha256.as_str()) && same_text(
            self.remainder.as_str(),
            other.remainder.as_str(),
        )
    }
}

/// Where the ledger of a state root stands.
#[derive(Debug, Clone)]
pub enum LedgerStorageStatus {
    /// Segment files only; nothing was imported.
    Missing,
    /// An import that was never finished.
    Candidate,
    /// The database holds the ledger.
    Ready {
        head_sequence: u64,
        migration: Option<MigrationRecord>,
        /// Everything else the status carries, encoded.
        remainder: String,
    },
}

/// The value of a storage status.
pub enum LedgerStorageStatusView {
    Missing,
    Candidate,
    Ready {
        head_sequence: u64,
        migration: Option<MigrationRecordView>,
        remainder: Seq<char>,
    },
}

pub open spec fn optional_migration(record: Option<MigrationRecord>) -> Option<
    MigrationRecordView,
> {
    match record {
        Some(record) => Some(record@),
        None => None,
    }
}

impl View for LedgerStorageStatus {
    type V = LedgerStorageStatusView;

    open spec fn view(&self) -> LedgerStorageStatusView {
        match *self {
            LedgerStorageStatus::Missing => LedgerStorageStatusView::Missing,
            LedgerStorageStatus::Candidate => LedgerStorageStatusView::Candidate,
            LedgerStorageStatus::Ready { head_sequence, migration, remainder } => {
                LedgerStorageStatusView::Ready {
                    head_sequence,
                    migration: optional_migration(migration),
                    remainder: remainder@,
                }
            },
        }
    }
}

impl LedgerStorageStatus {
    pub fn copy(&self) -> (copy: Self)
        ensures
            copy@ == self@,
    {
        match self {
            LedgerStorageStatus::Missing => LedgerStorageStatus::Missing,
            LedgerStorageStatus::Candidate => LedgerStorageStatus::Candidate,
            LedgerStorageStatus::Ready { head_sequence, migration, remainder } => {
                let migration = match migration {
                    Some(record) => Some(record.copy()),
                    None => None,
                };
                LedgerStorageStatus::Ready {
                    head_sequence: *head_sequence,
                    migration,
                    remainder: remainder.clone(),
                }
            },
        }
    }

    pub fn same(&self, other: &Self) -> (same: bool)
        ensures
            same == (self@ == other@),
    {
        match (self, other) {
            (LedgerStorageStatus::Missing, LedgerStorageStatus::Missing) => true,
            (LedgerStorageStatus::Candidate, LedgerStorageStatus::Candidate) => true,
            (
                LedgerStorageStatus::Ready { head_sequence, migration, remainder },
                LedgerStorageStatus::Ready {
                    head_sequence: other_head,
                    migration: other_migration,
                    remainder: other_remainder,
                },
            ) => {
                let migrations = match (migration, other_migration) {
                    (None, None) => true,
                    (Some(left), Some(right)) => left.same(right),
                    _ => false,
                };
                *head_sequence == *other_head && migrations && same_text(
                    remainder.as_str(),
                    other_remainder.as_str(),
                )
            },
            _ => false,
        }
    }

    pub fn is_missing(&self) -> (missing: bool)
        ensures
            missing == (self@ == LedgerStorageStatusView::Missing),
    {
        match self {
            LedgerStorageStatus::Missing => true,
            _ => false,
        }
    }
}

/// The identity of the segment files a ledger is imported from.
#[derive(Debug, Clone)]
pub struct LedgerSourceIdentity {
    pub source_sha256: String,
    /// Everything else the identity carries, encoded.
    pub remainder: String,
}

/// The value of a source identity.
pub struct LedgerSourceIdentityView {
    pub source_sha256: Seq<char>,
    pub remainder: Seq<char>,
}

impl View for LedgerSourceIdentity {
    type V = LedgerSourceIdentityView;

    open spec fn view(&self) -> LedgerSourceIdentityView {
        LedgerSourceIdentityView {
            source_sha256: self.source_sha256@,
            remainder: self.remainder@,
        }
    }
}

pub open spec fn optional_identity(identity: Option<LedgerSourceIdentity>) -> Option<
    LedgerSourceIdentityView,
> {
    match identity {
        Some(identity) => Some(identity@),
        None => None,
    }
}

impl LedgerSourceIdentity {
    pub fn same(&self, other: &Self) -> (same: bool)
        ensures
            same == (self@ == other@),
    {
        same_text(self.source_sha256.as_str(), other.source_sha256.as_str()) && same_text(
            self.remainder.as_str(),
            other.remainder.as_str(),
        )
    }
}

/// An artifact that ledger events refer to.
#[derive(Debug, Clone)]
pub struct ArtifactReference {
    pub object_key: Option<String>,
    pub byte_count: u64,
    /// Everything else the reference carries, encoded.
    pub remainder: String,
}

/// The value of an artifact reference.
pub struct ArtifactReferenceView {
    pub object_key: Option<Seq<char>>,
    pub byte_count: u64,
    pub remainder: Seq<char>,
}

impl View for ArtifactReference {
    type V = ArtifactReferenceView;

    open spec fn view(&self) -> ArtifactReferenceView {
        ArtifactReferenceView {
            object_key: optional_text(self.object_key),
            byte_count: self.byte_count,
            remainder: self.remainder@,
        }
    }
}

impl ArtifactReference {
    pub fn same(&self, other: &Self) -> (same: bool)
        ensures
            same == (self@ == other@),
    {
        self.byte_count == other.byte_count && same_optional_text(
            &self.object_key,
            &other.object_key,
        ) && same_text(self.remainder.as_str(), other.remainder.as_str())
    }
}

pub open spec fn references(list: Seq<ArtifactReference>) -> Seq<ArtifactReferenceView> {
    list.map_values(|reference: ArtifactReference| reference@)
}

/// What a backup is a backup of.
#[derive(Debug, Clone)]
pub struct BackupBinding {
    pub ledger: LedgerStorageStatus,
    pub state_sha256: String,
    pub source: Option<LedgerSourceIdentity>,
    pub artifacts: Vec<ArtifactReference>,
}

/// The value of a backup binding.
pub struct BackupBindingView {
    pub ledger: LedgerStorageStatusView,
    pub state_sha256: Seq<char>,
    pub source: Option<LedgerSourceIdentityView>,
    pub artifacts: Seq<ArtifactReferenceView>,
}

impl View for BackupBinding {
    type V = BackupBindingView;

    open spec fn view(&self) -> BackupBindingView {
        BackupBindingView {
            ledger: self.ledger@,
            state_sha256: self.state_sha256@,
            source: optional_identity(self.source),
            artifacts: references(self.artifacts@),
        }
    }
}

impl BackupBinding {
    pub fn same(&self, other: &Self) -> (same: bool)
        ensures
            same == (self@ == other@),
    {
        let sources = match (&self.source, &other.source) {
            (None, None) => true,
            (Some(left), Some(right)) => left.same(right),
            _ => false,
        };
        if !(sources && self.ledger.same(&other.ledger) && same_text(
            self.state_sha256.as_str(),
            other.state_sha256.as_str(),
        )) {
            return false;
        }
        if self.artifacts.len() != other.artifacts.len() {
            assert(self@.artifacts.len() != other@.artifacts.len());
            return false;
        }
        let mut index: usize = 0;
        while index < self.artifacts.len()
            invariant
                index <= self.artifacts.len(),
                self.artifacts.len() == other.artifacts.len(),
                forall|i: int|
                    0 <= i < index ==> (#[trigger] self.artifacts@[i])@ == other.artifacts@[i]@,
            decreases self.artifacts.len() - index,
        {
            if !self.artifacts[index].same(&other.artifacts[index]) {
                assert(self@.artifacts[index as int] != other@.artifacts[index as int]);
                return false;
            }
            index += 1;
        }
        assert(self@.artifacts =~= other@.artifacts);
        true
    }
}

/// A frozen copy of the database.
#[derive(Debug, Clone)]
pub struct DatabaseBackup {
    pub backup_id: String,
    pub warnings: Vec<String>,
    /// Everything else the backup's manifest carries, encoded.
    pub remainder: String,
}

/// The value of a database backup.
pub struct DatabaseBackupView {
    pub backup_id: Seq<char>,
    pub warnings: Seq<Seq<char>>,
    pub remainder: Seq<char>,
}

impl View for DatabaseBackup {
    type V = DatabaseBackupView;

    open spec fn view(&self) -> DatabaseBackupView {
        DatabaseBackupView {
            backup_id: self.backup_id@,
            warnings: texts(self.warnings@),
            remainder: self.remainder@,
        }
    }
}

#[derive(Debug, Clone)]
pub struct LedgerMaintenanceReceipt {
    pub schema_version: &'static str,
    pub status: &'static str,
    pub ledger: LedgerStorageStatus,
    pub backup_id: Option<String>,
    pub warnings: Vec<String>,
    pub activated: bool,
}

/// The value of a receipt.
pub struct LedgerMaintenanceReceiptView {
    pub schema_version: Seq<char>,
    pub status: Seq<char>,
    pub ledger: LedgerStorageStatusView,
    pub backup_id: Option<Seq<char>>,
    pub warnings: Seq<Seq<char>>,
    pub activated: bool,
}

impl View for LedgerMaintenanceReceipt {
    type V = LedgerMaintenanceReceiptView;

    open spec fn view(&self) -> LedgerMaintenanceReceiptView {
        LedgerMaintenanceReceiptView {
            schema_version: self.schema_version@,
            status: self.status@,
            ledger: self.ledger@,
            backup_id: optional_text(self.backup_id),
            warnings: texts(self.warnings@),
            activated: self.activated,
        }
    }
}

#[derive(Debug, Clone)]
pub struct LedgerMaintenanceFailure {
    pub code: String,
    pub operation: String,
    pub cause: String,
    pub cleanup: Vec<String>,
    pub warnings: Vec<String>,
}

/// The value of a maintenance failure.
pub struct LedgerMaintenanceFailureView {
    pub code: Seq<char>,
    pub operation: Seq<char>,
    pub cause: Seq<char>,
    pub cleanup: Seq<Seq<char>>,
    pub warnings: Seq<Seq<char>>,
}

impl View for LedgerMaintenanceFailure {
    type V = LedgerMaintenanceFailureView;

    open spec fn view(&self) -> LedgerMaintenanceFailureView {
        LedgerMaintenanceFailureView {
            code: self.code@,
            operation: self.operation@,
            cause: self.cause@,
            cleanup: texts(self.cleanup@),
            warnings: texts(self.warnings@),
        }
    }
}

/// A failure without cleanup failures or warnings.
pub open spec fn bare_failure(
    code: Seq<char>,
    operation: Seq<char>,
    cause: Seq<char>,
) -> LedgerMaintenanceFailureView {
    LedgerMaintenanceFailureView {
        code,
        operation,
        cause,
        cleanup: Seq::empty(),
        warnings: Seq::empty(),
    }
}

/// The failure of a rule of this module.
pub open spec fn rule_failure(
    code: Seq<char>,
    operation: Seq<char>,
) -> LedgerMaintenanceFailureView {
    bare_failure(code, operation, code + " during "@ + operation)
}

/// The result fails with a rule's failure.
pub open spec fn refuses<T>(
    result: Result<T, LedgerMaintenanceFailure>,
    code: &str,
    operation: &str,
) -> bool {
    result matches Err(failure) && failure@ == rule_failure(code@, operation@)
}

/// A failure in words: its cause, then each failed cleanup.
pub open spec fn described(cause: Seq<char>, cleanup: Seq<Seq<char>>) -> Seq<char>
    decreases cleanup.len(),
{
    if cleanup.len() == 0 {
        cause
    } else {
        described(cause, cleanup.drop_last()) + "; cleanup: "@ + cleanup.last()
    }
}

impl LedgerMaintenanceFailure {
    /// A failure with a cause in words.
    pub fn new(code: &str, operation: &str, cause: String) -> (failure: Self)
        ensures
            failure@ == bare_failure(code@, operation@, cause@),
    {
        let failure = LedgerMaintenanceFailure {
            code: String::from_str(code),
            operation: String::from_str(operation),
            cause,
            cleanup: Vec::new(),
            warnings: Vec::new(),
        };
        assert(failure@.cleanup =~= Seq::empty());
        assert(failure@.warnings =~= Seq::empty());
        failure
    }

    /// A failure of the ledger, whose detail is part of the cause.
    pub fn from_ledger(code: &str, operation: &str, message: &str, detail: Option<&str>) -> (
    failure: Self)
        ensures
            failure@ == bare_failure(
                code@,
                operation@,
                message@ + "; "@ + match detail {
                    Some(detail) => detail@,
                    None => "no_additional_detail"@,
                },
            ),
    {
        let mut cause = String::from_str(message);
        cause.append("; ");
        match detail {
            Some(detail) => cause.append(detail),
            None => cause.append("no_additional_detail"),
        }
        LedgerMaintenanceFailure::new(code, operation, cause)
    }

    /// A failure of the database, with the warnings it carries.
    pub fn from_database(code: &str, operation: &str, message: &str, warnings: &Vec<String>) -> (
    failure: Self)
        ensures
            failure@ == (LedgerMaintenanceFailureView {
                warnings: texts(warnings@),
                ..bare_failure(code@, operation@, message@)
            }),
    {
        let mut failure = LedgerMaintenanceFailure::new(
            code,
            operation,
            String::from_str(message),
        );
        failure.warnings = copy_texts(warnings);
        failure
    }

    /// The failure in words.
    pub fn describe(&self) -> (text: String)
        ensures
            text@ == described(self.cause@, texts(self.cleanup@)),
    {
        let mut text = self.cause.clone();
        let mut index: usize = 0;
        assert(texts(self.cleanup@).take(0) =~= Seq::empty());
        while index < self.cleanup.len()
            invariant
                index <= self.cleanup.len(),
                text@ == described(self.cause@, texts(self.cleanup@).take(index as int)),
            decreases self.cleanup.len() - index,
        {
            let ghost all = texts(self.cleanup@);
            text.append("; cleanup: ");
            text.append(self.cleanup[index].as_str());
            assert(all.take(index + 1).drop_last() =~= all.take(index as int));
            assert(all.take(index + 1).last() == all[index as int]);
            index += 1;
        }
        assert(texts(self.cleanup@).take(self.cleanup@.len() as int) =~= texts(self.cleanup@));
        text
    }
}

pub(crate) fn failure(code: &str, operation: &str) -> (result: LedgerMaintenanceFailure)
    ensures
        result@ == rule_failure(code@, operation@),
{
    let mut cause = String::from_str(code);
    cause.append(" during ");
    cause.append(operation);
    LedgerMaintenanceFailure::new(code, operation, cause)
}

/// The failure of an input or output operation, with the system's words.
pub fn io_failure(operation: &str, detail: &str) -> (result: LedgerMaintenanceFailure)
    ensures
        result@ == bare_failure(
            "maintenance_io_failed"@,
            operation@,
            "maintenance_io_failed"@ + " during "@ + operation@ + ": "@ + detail@,
        ),
{
    let mut result = failure("maintenance_io_failed", operation);
    result.cause.append(": ");
    result.cause.append(detail);
    result
}

/// Joins the result of some work with that of the cleanup after it: the
/// work's failure comes first and keeps the cleanup's words.
pub fn finish<T>(
    result: Result<T, LedgerMaintenanceFailure>,
    cleanup: Result<(), LedgerMaintenanceFailure>,
) -> (joined: Result<T, LedgerMaintenanceFailure>)
    ensures
        match (result, cleanup) {
            (_, Ok(_)) => joined == result,
            (Ok(_), Err(error)) => joined == Err::<T, _>(error),
            (Err(original), Err(error)) => joined matches Err(both) && both@ == (
            LedgerMaintenanceFailureView {
                cleanup: texts(original.cleanup@).push(
                    described(error.cause@, texts(error.cleanup@)),
                ),
                ..original@
            }),
        },
{
    match (result, cleanup) {
        (result, Ok(_)) => result,
        (Ok(_), Err(error)) => Err(error),
        (Err(mut original), Err(error)) => {
            let ghost before = original;
            original.cleanup.push(error.describe());
            assert(texts(original.cleanup@) =~= texts(before.cleanup@).push(
                described(error.cause@, texts(error.cleanup@)),
            ));
            Err(original)
        },
    }
}

/// A request names the paths its operation needs and no others.
pub open spec fn request_valid(request: LedgerMaintenanceRequest) -> bool {
    let operation = request.operation;
    &&& (request.backup is Some) == (operation != LedgerMaintenanceOperation::Verify)
    &&& (request.target is Some) == (operation == LedgerMaintenanceOperation::Restore)
    &&& request.artifact_root is Some ==> operation == LedgerMaintenanceOperation::Restore
}

pub fn validate_request(request: &LedgerMaintenanceRequest) -> (result: Result<
    (),
    LedgerMaintenanceFailure,
>)
    ensures
        request_valid(*request) ==> result is Ok,
        !request_valid(*request) ==> refuses(
            result,
            "maintenance_arguments_invalid",
            "validate_ledger_maintenance",
        ),
{
    let needs_backup = request.operation != LedgerMaintenanceOperation::Verify;
    let needs_target = request.operation == LedgerMaintenanceOperation::Restore;
    if needs_backup != request.backup.is_some() || needs_target != request.target.is_some() || (
    request.artifact_root.is_some() && !needs_target) {
        return Err(failure("maintenance_arguments_invalid", "validate_ledger_maintenance"));
    }
    Ok(())
}

/// A path that the operation needs.
pub fn required(path: &Option<String>) -> (result: Result<&str, LedgerMaintenanceFailure>)
    ensures
        match *path {
            Some(path) => result matches Ok(found) && found@ == path@,
            None => refuses(result, "maintenance_path_missing", "validate_ledger_maintenance"),
        },
{
    match path {
        Some(path) => Ok(path.as_str()),
        None => Err(failure("maintenance_path_missing", "validate_ledger_maintenance")),
    }
}

/// Whether the operation opens the database for reading only.
pub fn opens_read_only(operation: LedgerMaintenanceOperation) -> (read_only: bool)
    ensures
        read_only == (operation == LedgerMaintenanceOperation::Verify || operation
            == LedgerMaintenanceOperation::Backup || operation
            == LedgerMaintenanceOperation::Restore),
{
    operation == LedgerMaintenanceOperation::Verify || operation
        == LedgerMaintenanceOperation::Backup || operation == LedgerMaintenanceOperation::Restore
}

/// No operation runs on an unfinished import.
pub fn admit_ledger(ledger: &LedgerStorageStatus) -> (result: Result<
    (),
    LedgerMaintenanceFailure,
>)
    ensures
        ledger@ == LedgerStorageStatusView::Candidate ==> refuses(
            result,
            "candidate_requires_explicit_disposition",
            "maintain_runtime_ledger",
        ),
        ledger@ != LedgerStorageStatusView::Candidate ==> result is Ok,
{
    match ledger {
        LedgerStorageStatus::Candidate => Err(
            failure("candidate_requires_explicit_disposition", "maintain_runtime_ledger"),
        ),
        _ => Ok(()),
    }
}

pub open spec fn optional_backup(backup: Option<DatabaseBackup>) -> Option<DatabaseBackupView> {
    match backup {
        Some(backup) => Some(backup@),
        None => None,
    }
}

/// A receipt. Maintenance never activates what it wrote.
pub open spec fn receipt_of(
    status: &str,
    ledger: LedgerStorageStatusView,
    backup: Option<DatabaseBackupView>,
) -> LedgerMaintenanceReceiptView {
    LedgerMaintenanceReceiptView {
        schema_version: "actingcommand.ledger-maintenance.v1"@,
        status: status@,
        ledger,
        backup_id: match backup {
            Some(backup) => Some(backup.backup_id),
            None => None,
        },
        warnings: match backup {
            Some(backup) => backup.warnings,
            None => Seq::empty(),
        },
        activated: false,
    }
}

pub fn receipt(
    status: &'static str,
    ledger: LedgerStorageStatus,
    backup: &Option<DatabaseBackup>,
) -> (receipt: LedgerMaintenanceReceipt)
    ensures
        receipt@ == receipt_of(status, ledger@, optional_backup(*backup)),
{
    let mut backup_id: Option<String> = None;
    let mut warnings: Vec<String> = Vec::new();
    assert(texts(warnings@) =~= Seq::empty());
    if let Some(backup) = backup {
        backup_id = Some(backup.backup_id.clone());
        warnings = copy_texts(&backup.warnings);
    }
    LedgerMaintenanceReceipt {
        schema_version: "actingcommand.ledger-maintenance.v1",
        status,
        ledger,
        backup_id,
        warnings,
        activated: false,
    }
}

/// The receipt of a verification: which storage was verified.
pub fn verify_receipt(ledger: LedgerStorageStatus) -> (result: LedgerMaintenanceReceipt)
    ensures
        result@ == receipt_of(
            if ledger@ == LedgerStorageStatusView::Missing {
                "verified-segment"
            } else {
                "verified-sqlite"
            },
            ledger@,
            None,
        ),
{
    let status = if ledger.is_missing() {
        "verified-segment"
    } else {
        "verified-sqlite"
    };
    receipt(status, ledger, &None)
}

/// A backup must still be what was verified before.
pub fn check_backup_unchanged(verified: &DatabaseBackup, backup: &DatabaseBackup) -> (result:
    Result<(), LedgerMaintenanceFailure>)
    ensures
        verified@ == backup@ ==> result is Ok,
        verified@ != backup@ ==> refuses(result, "backup_changed", "verify_backup_binding"),
{
    if same_text(verified.backup_id.as_str(), backup.backup_id.as_str()) && same_texts(
        &verified.warnings,
        &backup.warnings,
    ) && same_text(verified.remainder.as_str(), backup.remainder.as_str()) {
        return Ok(());
    }
    Err(failure("backup_changed", "verify_backup_binding"))
}

/// What a backup projects to must be what it is bound to.
pub fn check_backup_projection(actual: &BackupBinding, expected: &BackupBinding) -> (result: Result<
    (),
    LedgerMaintenanceFailure,
>)
    ensures
        actual@ == expected@ ==> result is Ok,
        actual@ != expected@ ==> refuses(
            result,
            "backup_projection_mismatch",
            "verify_backup_binding",
        ),
{
    if actual.same(expected) {
        Ok(())
    } else {
        Err(failure("backup_projection_mismatch", "verify_backup_binding"))
    }
}

/// An import reads the very segments that were backed up.
pub open spec fn import_source_matches(
    binding: BackupBindingView,
    source: LedgerSourceIdentityView,
) -> bool {
    binding.ledger == LedgerStorageStatusView::Missing && binding.source == Some(source)
}

pub fn check_import_source(binding: &BackupBinding, source: &LedgerSourceIdentity) -> (result:
    Result<(), LedgerMaintenanceFailure>)
    ensures
        import_source_matches(binding@, source@) ==> result is Ok,
        !import_source_matches(binding@, source@) ==> refuses(
            result,
            "migration_backup_source_mismatch",
            "import_segment_ledger",
        ),
{
    let same = match &binding.source {
        Some(bound) => bound.same(source),
        None => false,
    };
    if binding.ledger.is_missing() && same {
        Ok(())
    } else {
        Err(failure("migration_backup_source_mismatch", "import_segment_ledger"))
    }
}

#[derive(Debug, Clone, Copy, PartialEq, Eq, Structural)]
pub enum ImportDecision {
    /// The same import already happened.
    AlreadyImported,
    Proceed,
}

/// The ledger was imported before, by this very migration.
pub open spec fn already_imported(
    ledger: LedgerStorageStatusView,
    record: MigrationRecordView,
) -> bool {
    ledger matches LedgerStorageStatusView::Ready { migration: Some(existing), .. } && existing
        == record
}

/// Decides an import whose source matched.
pub fn decide_import(
    ledger: &LedgerStorageStatus,
    record: &MigrationRecord,
    state_sha256: &str,
    binding: &BackupBinding,
) -> (result: Result<ImportDecision, LedgerMaintenanceFailure>)
    ensures
        if already_imported(ledger@, record@) {
            result == Ok::<_, LedgerMaintenanceFailure>(ImportDecision::AlreadyImported)
        } else if ledger@ == LedgerStorageStatusView::Missing && state_sha256@
            == binding.state_sha256@ {
            result == Ok::<_, LedgerMaintenanceFailure>(ImportDecision::Proceed)
        } else {
            refuses(result, "migration_current_state_conflict", "import_segment_ledger")
        },
{
    match ledger {
        LedgerStorageStatus::Ready { migration: Some(existing), .. } => {
            if existing.same(record) {
                return Ok(ImportDecision::AlreadyImported);
            }
        },
        LedgerStorageStatus::Missing => {
            if same_text(state_sha256, binding.state_sha256.as_str()) {
                return Ok(ImportDecision::Proceed);
            }
        },
        _ => {},
    }
    Err(failure("migration_current_state_conflict", "import_segment_ledger"))
}

/// The receipt of an import, or of a rehearsal of one, which changes nothing.
pub fn import_receipt(
    operation: LedgerMaintenanceOperation,
    ledger: LedgerStorageStatus,
    imported: LedgerStorageStatus,
    backup: &Option<DatabaseBackup>,
) -> (result: LedgerMaintenanceReceipt)
    ensures
        operation == LedgerMaintenanceOperation::DryRun ==> result@ == receipt_of(
            "dry-run",
            ledger@,
            optional_backup(*backup),
        ),
        operation != LedgerMaintenanceOperation::DryRun ==> result@ == receipt_of(
            "imported",
            imported@,
            optional_backup(*backup),
        ),
{
    if operation == LedgerMaintenanceOperation::DryRun {
        receipt("dry-run", ledger, backup)
    } else {
        receipt("imported", imported, backup)
    }
}

#[derive(Debug, Clone, Copy, PartialEq, Eq, Structural)]
pub enum RestoreAdmission {
    /// Both ledgers are segment files: their identities have to agree.
    CompareSource,
    Admitted,
}

/// The current database holds nothing beyond the import of the backed-up
/// segments.
pub open spec fn only_imported(
    expected: BackupBindingView,
    current: LedgerStorageStatusView,
    backup_id: Seq<char>,
) -> bool {
    &&& expected.ledger == LedgerStorageStatusView::Missing
    &&& current matches LedgerStorageStatusView::Ready {
        head_sequence,
        migration: Some(record),
        ..
    }
    &&& head_sequence == record.cutover_sequence
    &&& record.backup_sha256 == backup_id
    &&& expected.source matches Some(source) && source.source_sha256 == record.source_sha256
}

/// Decides whether a restore would discard anything.
pub fn admit_restore(
    expected: &BackupBinding,
    current: &LedgerStorageStatus,
    current_state_sha256: &str,
    backup_id: &str,
) -> (result: Result<RestoreAdmission, LedgerMaintenanceFailure>)
    ensures
        if current_state_sha256@ != expected.state_sha256@ {
            refuses(result, "restore_state_has_advanced", "admit_database_restore")
        } else if expected.ledger@ == LedgerStorageStatusView::Missing && current@
            == LedgerStorageStatusView::Missing {
            result == Ok::<_, LedgerMaintenanceFailure>(RestoreAdmission::CompareSource)
        } else if only_imported(expected@, current@, backup_id@) || expected.ledger@ == current@ {
            result == Ok::<_, LedgerMaintenanceFailure>(RestoreAdmission::Admitted)
        } else {
            refuses(result, "restore_would_discard_new_events", "admit_database_restore")
        },
{
    if !same_text(current_state_sha256, expected.state_sha256.as_str()) {
        return Err(failure("restore_state_has_advanced", "admit_database_restore"));
    }
    if expected.ledger.is_missing() {
        match current {
            LedgerStorageStatus::Missing => {
                return Ok(RestoreAdmission::CompareSource);
            },
            LedgerStorageStatus::Ready { head_sequence, migration: Some(record), .. } => {
                let same_source = match &expected.source {
                    Some(source) => same_text(
                        source.source_sha256.as_str(),
                        record.source_sha256.as_str(),
                    ),
                    None => false,
                };
                if *head_sequence == record.cutover_sequence && same_text(
                    record.backup_sha256.as_str(),
                    backup_id,
                ) && same_source {
                    return Ok(RestoreAdmission::Admitted);
                }
            },
            _ => {},
        }
    }
    if expected.ledger.same(current) {
        return Ok(RestoreAdmission::Admitted);
    }
    Err(failure("restore_would_discard_new_events", "admit_database_restore"))
}

/// The segments must be the ones that were backed up.
pub fn check_restore_source(expected: &BackupBinding, source: &LedgerSourceIdentity) -> (result:
    Result<(), LedgerMaintenanceFailure>)
    ensures
        expected@.source == Some(source@) ==> result is Ok,
        expected@.source != Some(source@) ==> refuses(
            result,
            "restore_source_changed",
            "admit_database_restore",
        ),
{
    let same = match &expected.source {
        Some(bound) => bound.same(source),
        None => false,
    };
    if same {
        Ok(())
    } else {
        Err(failure("restore_source_changed", "admit_database_restore"))
    }
}

/// A restore writes into a directory of its own.
pub fn check_restore_target(exists: bool) -> (result: Result<(), LedgerMaintenanceFailure>)
    ensures
        exists ==> refuses(result, "restore_target_exists", "admit_database_restore"),
        !exists ==> result is Ok,
{
    if exists {
        Err(failure("restore_target_exists", "admit_database_restore"))
    } else {
        Ok(())
    }
}

/// The restored state must have the digest of the backed-up one.
pub fn check_restored_state(digest: &str, expected: &BackupBinding) -> (result: Result<
    (),
    LedgerMaintenanceFailure,
>)
    ensures
        digest@ == expected.state_sha256@ ==> result is Ok,
        digest@ != expected.state_sha256@ ==> refuses(
            result,
            "restored_state_mismatch",
            "verify_restored_root",
        ),
{
    if same_text(digest, expected.state_sha256.as_str()) {
        Ok(())
    } else {
        Err(failure("restored_state_mismatch", "verify_restored_root"))
    }
}

/// The restored ledger must project to what was backed up.
pub fn check_restored_projection(actual: &BackupBinding, expected: &BackupBinding) -> (result:
    Result<(), LedgerMaintenanceFailure>)
    ensures
        actual@ == expected@ ==> result is Ok,
        actual@ != expected@ ==> refuses(
            result,
            "restored_projection_mismatch",
            "verify_restored_root",
        ),
{
    if actual.same(expected) {
        Ok(())
    } else {
        Err(failure("restored_projection_mismatch", "verify_restored_root"))
    }
}

/// The positions at which an object key occurs for the first time.
pub open spec fn first_occurrence(list: Seq<ArtifactReferenceView>, index: int) -> bool {
    forall|i: int| 0 <= i < index ==> list[i].object_key != list[index].object_key
}

/// The bytes of a list of artifacts, each object counted once.
pub open spec fn distinct_bytes(list: Seq<ArtifactReferenceView>) -> nat
    decreases list.len(),
{
    if list.len() == 0 {
        0
    } else {
        let last = list.len() - 1;
        distinct_bytes(list.drop_last()) + if first_occurrence(list, last) {
            list[last].byte_count as nat
        } else {
            0
        }
    }
}

/// The number of different objects in a list of artifacts.
pub open spec fn distinct_objects(list: Seq<ArtifactReferenceView>) -> nat
    decreases list.len(),
{
    if list.len() == 0 {
        0
    } else {
        distinct_objects(list.drop_last()) + if first_occurrence(list, list.len() - 1) {
            1nat
        } else {
            0
        }
    }
}

/// What to do with the next artifact of a restore.
#[derive(Debug, Clone, Copy, PartialEq, Eq, Structural)]
pub enum RestoreArtifact {
    /// The object was restored already.
    Skip,
    /// Check the totals against the limits, then restore the object.
    Restore { total_bytes: u64, objects: usize },
}

/// Plans the restore of one artifact after those before it.
pub fn plan_restore_artifact(
    artifacts: &Vec<ArtifactReference>,
    index: usize,
    bytes_before: u64,
    objects_before: usize,
) -> (result: Result<RestoreArtifact, LedgerMaintenanceFailure>)
    requires
        index < artifacts.len(),
        bytes_before == distinct_bytes(references(artifacts@).take(index as int)),
        objects_before == distinct_objects(references(artifacts@).take(index as int)),
    ensures
        ({
            let list = references(artifacts@).take(index + 1);
            if !first_occurrence(references(artifacts@), index as int) {
                &&& result == Ok::<_, LedgerMaintenanceFailure>(RestoreArtifact::Skip)
                &&& distinct_bytes(list) == bytes_before
                &&& distinct_objects(list) == objects_before
            } else if distinct_bytes(list) > u64::MAX {
                refuses(result, "restore_artifact_size_overflow", "restore_artifact_material")
            } else {
                result == Ok::<_, LedgerMaintenanceFailure>(
                    RestoreArtifact::Restore {
                        total_bytes: distinct_bytes(list) as u64,
                        objects: distinct_objects(list) as usize,
                    },
                ) && distinct_objects(list) <= index + 1
            }
        }),
{
    let ghost all = references(artifacts@);
    let ghost list = all.take(index + 1);
    proof {
        assert(list.drop_last() =~= all.take(index as int));
        assert(first_occurrence(list, index as int) == first_occurrence(all, index as int)) by {
            assert forall|i: int| 0 <= i <= index implies list[i] == all[i] by {}
        }
        lemma_distinct_objects_bounded(all.take(index as int));
    }
    let mut seen: usize = 0;
    while seen < index
        invariant
            seen <= index < artifacts.len(),
            all == references(artifacts@),
            list == all.take(index + 1),
            bytes_before == distinct_bytes(all.take(index as int)),
            objects_before == distinct_objects(all.take(index as int)),
            forall|i: int|
                0 <= i < seen ==> (#[trigger] all[i]).object_key != all[index as int].object_key,
        decreases index - seen,
    {
        if same_optional_text(&artifacts[seen].object_key, &artifacts[index].object_key) {
            assert(all[seen as int].object_key == all[index as int].object_key);
            assert(!first_occurrence(all, index as int));
            proof {
                assert(list.drop_last() =~= all.take(index as int));
                assert(list[seen as int] == all[seen as int]);
                assert(list[index as int] == all[index as int]);
                assert(!first_occurrence(list, index as int));
            }
            return Ok(RestoreArtifact::Skip);
        }
        seen += 1;
    }
    assert(first_occurrence(all, index as int));
    match bytes_before.checked_add(artifacts[index].byte_count) {
        None => Err(failure("restore_artifact_size_overflow", "restore_artifact_material")),
        Some(total_bytes) => Ok(
            RestoreArtifact::Restore { total_bytes, objects: objects_before + 1 },
        ),
    }
}

pub proof fn lemma_distinct_objects_bounded(list: Seq<ArtifactReferenceView>)
    ensures
        distinct_objects(list) <= list.len(),
    decreases list.len(),
{
    if list.len() > 0 {
        lemma_distinct_objects_bounded(list.drop_last());
    }
}

/// An import that finished is found again by the same import: a second run
/// answers that it already happened.
pub proof fn law_import_is_idempotent(
    record: MigrationRecordView,
    head_sequence: u64,
    remainder: Seq<char>,
)
    ensures
        already_imported(
            LedgerStorageStatusView::Ready { head_sequence, migration: Some(record), remainder },
            record,
        ),
{
}

/// A request names its paths exactly as its operation needs them: only a
/// verification has no backup, and only a restore has a target or may name
/// where artifacts go.
pub proof fn law_requests_name_what_they_need(request: LedgerMaintenanceRequest)
    ensures
        request.operation == LedgerMaintenanceOperation::Verify ==> (request_valid(request)
            <==> request.backup is None && request.target is None && request.artifact_root is None),
        request.operation == LedgerMaintenanceOperation::Restore ==> (request_valid(request)
            <==> request.backup is Some && request.target is Some),
        request.operation == LedgerMaintenanceOperation::Backup || request.operation
            == LedgerMaintenanceOperation::Import || request.operation
            == LedgerMaintenanceOperation::DryRun ==> (request_valid(request)
            <==> request.backup is Some && request.target is None && request.artifact_root is None),
{
}

/// A receipt tells its status, the ledger and the backup that it was about,
/// and never that anything was put into use.
pub proof fn law_receipt_tells_what_was_done(
    status: &str,
    ledger: LedgerStorageStatusView,
    backup: Option<DatabaseBackupView>,
)
    ensures
        receipt_of(status, ledger, backup).status == status@,
        receipt_of(status, ledger, backup).ledger == ledger,
        !receipt_of(status, ledger, backup).activated,
        backup is None <==> receipt_of(status, ledger, backup).backup_id is None,
        backup matches Some(kept) ==> receipt_of(status, ledger, backup).backup_id == Some(
            kept.backup_id,
        ) && receipt_of(status, ledger, backup).warnings == kept.warnings,
        backup is None ==> receipt_of(status, ledger, backup).warnings.len() == 0,
{
}

/// Counting the distinct objects of a longer list adds one, and their bytes
/// those of the new reference, exactly when no earlier reference has its key.
pub proof fn law_objects_are_counted_once(
    list: Seq<ArtifactReferenceView>,
    reference: ArtifactReferenceView,
)
    ensures
        (exists|i: int|
            0 <= i < list.len() && (#[trigger] list[i]).object_key == reference.object_key) ==> {
            &&& distinct_objects(list.push(reference)) == distinct_objects(list)
            &&& distinct_bytes(list.push(reference)) == distinct_bytes(list)
        },
        (forall|i: int|
            0 <= i < list.len() ==> (#[trigger] list[i]).object_key != reference.object_key) ==> {
            &&& distinct_objects(list.push(reference)) == distinct_objects(list) + 1
            &&& distinct_bytes(list.push(reference)) == distinct_bytes(list) + reference.byte_count
        },
        distinct_objects(Seq::empty()) == 0,
        distinct_bytes(Seq::empty()) == 0,
{
    let longer = list.push(reference);
    assert(longer.drop_last() =~= list);
    assert(longer.last() == reference);
    if exists|i: int|
        0 <= i < list.len() && (#[trigger] list[i]).object_key == reference.object_key {
        let at = choose|i: int|
            0 <= i < list.len() && (#[trigger] list[i]).object_key == reference.object_key;
        assert(longer[at] == list[at]);
        assert(!first_occurrence(longer, list.len() as int));
    } else {
        assert forall|i: int| 0 <= i < list.len() implies (
        #[trigger] longer[i]).object_key != longer[list.len() as int].object_key by {
            assert(longer[i] == list[i]);
        }
        assert(first_occurrence(longer, list.len() as int));
    }
}

/// A ledger that an import filled and nothing was added to holds only what the
/// backup of its segments holds.
pub proof fn law_only_the_import_is_told(
    expected: BackupBindingView,
    head_sequence: u64,
    record: MigrationRecordView,
    remainder: Seq<char>,
    source: LedgerSourceIdentityView,
    backup_id: Seq<char>,
)
    requires
        expected.source == Some(source),
    ensures
        only_imported(
            expected,
            LedgerStorageStatusView::Ready { head_sequence, migration: Some(record), remainder },
            backup_id,
        ) <==> expected.ledger == LedgerStorageStatusView::Missing && record.cutover_sequence
            == head_sequence && record.backup_sha256 == backup_id && record.source_sha256
            == source.source_sha256,
        !only_imported(
            expected,
            LedgerStorageStatusView::Ready { head_sequence, migration: None, remainder },
            backup_id,
        ),
        !only_imported(expected, LedgerStorageStatusView::Missing, backup_id),
{
}

/// A different record means another import: a ledger counts as imported only
/// by the record that it holds.
pub proof fn law_imports_are_told_apart(
    ledger: LedgerStorageStatusView,
    left: MigrationRecordView,
    right: MigrationRecordView,
)
    ensures
        already_imported(ledger, left) && already_imported(ledger, right) ==> left == right,
        ledger == LedgerStorageStatusView::Missing ==> !already_imported(ledger, left),
{
}

/// What a failure says begins with its cause and goes on with each cleanup in
/// turn.
pub proof fn law_description_tells_each_cleanup(
    cause: Seq<char>,
    cleanup: Seq<Seq<char>>,
    next: Seq<char>,
)
    ensures
        described(cause, Seq::empty()) == cause,
        described(cause, cleanup.push(next)) == described(cause, cleanup) + "; cleanup: "@ + next,
{
    assert(cleanup.push(next).drop_last() =~= cleanup);
}

} // verus!
