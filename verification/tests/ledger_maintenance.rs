//! Maintenance of the ledger.

use runtime_host::ledger_maintenance::{
    admit_restore, decide_import, finish, plan_restore_artifact, receipt, required,
    validate_request, ArtifactReference, BackupBinding, ImportDecision, LedgerMaintenanceFailure,
    LedgerMaintenanceOperation, LedgerMaintenanceRequest, LedgerStorageStatus, MaintenanceLimits,
    MigrationRecord, RestoreAdmission, RestoreArtifact,
};

fn request(operation: LedgerMaintenanceOperation) -> LedgerMaintenanceRequest {
    LedgerMaintenanceRequest {
        operation,
        backup: Some("/backup".to_owned()),
        target: None,
        artifact_root: None,
        limits: MaintenanceLimits { max_bytes: 10, max_entries: 10, max_duration_ms: 10 },
    }
}

#[test]
fn a_request_names_the_paths_its_operation_needs() {
    validate_request(&request(LedgerMaintenanceOperation::Import)).expect("import");
    let verify = validate_request(&request(LedgerMaintenanceOperation::Verify));
    assert_eq!(verify.expect_err("no backup to verify").code, "maintenance_arguments_invalid");
    let mut restore = request(LedgerMaintenanceOperation::Restore);
    assert_eq!(
        validate_request(&restore).expect_err("no target").code,
        "maintenance_arguments_invalid"
    );
    restore.target = Some("/target".to_owned());
    validate_request(&restore).expect("restore");
    assert_eq!(required(&restore.target).expect("path"), "/target");
    assert_eq!(required(&None).expect_err("missing").code, "maintenance_path_missing");
}

#[test]
fn a_failed_cleanup_is_told_with_the_failure_it_follows() {
    let work = LedgerMaintenanceFailure::new("a", "b", "first cause".to_owned());
    let cleanup = LedgerMaintenanceFailure::new("c", "d", "second cause".to_owned());
    let joined = finish::<()>(Err(work), Err(cleanup)).expect_err("both failed");
    assert_eq!(joined.code, "a");
    assert_eq!(joined.describe(), "first cause; cleanup: second cause");
    let late = LedgerMaintenanceFailure::new("c", "d", "late".to_owned());
    assert_eq!(finish(Ok(1), Err(late)).expect_err("cleanup failed").code, "c");
    assert_eq!(finish(Ok(1), Ok(())).expect("fine"), 1);
    let ledger = LedgerMaintenanceFailure::from_ledger("x", "y", "broken", None);
    assert_eq!(ledger.cause, "broken; no_additional_detail");
}

fn migration(source: &str) -> MigrationRecord {
    MigrationRecord {
        cutover_sequence: 4,
        backup_sha256: "b".to_owned(),
        source_sha256: source.to_owned(),
        remainder: String::new(),
    }
}

fn binding(ledger: LedgerStorageStatus) -> BackupBinding {
    BackupBinding {
        ledger,
        state_sha256: "state".to_owned(),
        source: None,
        artifacts: Vec::new(),
    }
}

#[test]
fn an_import_that_was_done_is_not_done_again() {
    let bound = binding(LedgerStorageStatus::Missing);
    assert!(matches!(
        decide_import(&LedgerStorageStatus::Missing, &migration("s"), "state", &bound),
        Ok(ImportDecision::Proceed)
    ));
    let ready = LedgerStorageStatus::Ready {
        head_sequence: 4,
        migration: Some(migration("s")),
        remainder: String::new(),
    };
    assert!(matches!(
        decide_import(&ready, &migration("s"), "state", &bound),
        Ok(ImportDecision::AlreadyImported)
    ));
    assert!(decide_import(&ready, &migration("other"), "state", &bound).is_err());
}

#[test]
fn a_restore_goes_into_the_state_it_was_taken_from() {
    let bound = binding(LedgerStorageStatus::Missing);
    assert!(matches!(
        admit_restore(&bound, &LedgerStorageStatus::Missing, "state", "id"),
        Ok(RestoreAdmission::CompareSource)
    ));
    assert!(admit_restore(&bound, &LedgerStorageStatus::Missing, "other", "id").is_err());
}

#[test]
fn an_artifact_is_restored_once_and_counted() {
    let artifact = |key: Option<&str>, byte_count: u64| ArtifactReference {
        object_key: key.map(str::to_owned),
        byte_count,
        remainder: String::new(),
    };
    let artifacts =
        vec![artifact(Some("a"), 10), artifact(Some("a"), 10), artifact(Some("b"), 5)];
    match plan_restore_artifact(&artifacts, 0, 0, 0).expect("first") {
        RestoreArtifact::Restore { total_bytes, objects } => {
            assert_eq!((total_bytes, objects), (10, 1));
        }
        RestoreArtifact::Skip => panic!("restored"),
    }
    assert!(matches!(
        plan_restore_artifact(&artifacts, 1, 10, 1).expect("same object"),
        RestoreArtifact::Skip
    ));
    let huge = vec![artifact(Some("a"), u64::MAX), artifact(Some("b"), 1)];
    assert_eq!(
        plan_restore_artifact(&huge, 1, u64::MAX, 1).expect_err("too many bytes").code,
        "restore_artifact_size_overflow"
    );
}

#[test]
fn a_receipt_shows_what_was_done() {
    let shown = receipt("verified", LedgerStorageStatus::Candidate, &None);
    assert_eq!(shown.status, "verified");
    assert_eq!(shown.backup_id, None);
    assert!(!shown.activated);
}
