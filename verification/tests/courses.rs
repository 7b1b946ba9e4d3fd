//! Runs from their first step to their last.

use runtime_host::artifact_recognition::{
    ArtifactRecognition, RecognitionAction, RecognitionEnd, RecognitionProgress, RecognitionReply,
    RecognitionTask, SourceVerification,
};
use runtime_host::close_course::{
    CleanupAction, CleanupEnd, CleanupProgress, CleanupReply, FailureCleanup, RetainedAction,
    RetainedClose, RetainedEnd, RetainedProgress, RetainedReply,
};
use runtime_host::error::{RuntimeErrorCode, RuntimeHostError};
use runtime_host::ledger_maintenance::{
    ArtifactReference, BackupBinding, DatabaseBackup, LedgerMaintenanceFailure,
    LedgerMaintenanceOperation, LedgerMaintenanceRequest, LedgerSourceIdentity,
    LedgerStorageStatus, MaintenanceLimits, MigrationRecord,
};
use runtime_host::maintenance_run::{
    MaintenanceAction, MaintenanceOutcome, MaintenanceProgress, MaintenanceReply, MaintenanceRun,
};
use runtime_host::release_course::{
    FactKind, ReadPurpose, RecoveryAction, RecoveryProgress, RecoveryReply, ReleaseRecovery,
    ReleaseStage, ReleaseSwitch, StageAction, StageProgress, StageReply, SwitchAction,
    SwitchProgress, SwitchReply,
};
use runtime_host::release_state::{
    EventOrigin, EventParty, IntentCheck, ReleaseBaselineMember, ReleaseEvent,
    ReleaseEventType, ReleasePayload, ReleaseTransition, ReleaseTransitionKind, TransitionAppend,
};
use runtime_host::resource_close::ResourceQuiescence;
use runtime_host::saved_artifact::{
    SavedArtifactSource, SourceArtifact, SourceEvent, SourceEventKind, SourceLedger, TerminalEvent,
    MAX_VERIFIED_SOURCE_BYTES,
};

fn artifact() -> SourceArtifact {
    SourceArtifact { run_id: Some(1), correlation_id: Some(2), remainder: "png".to_owned() }
}

fn terminal(sequence: u64) -> TerminalEvent {
    TerminalEvent { sequence, event_id: u128::from(sequence) + 100 }
}

fn task() -> RecognitionTask {
    RecognitionTask {
        source: SavedArtifactSource {
            frame_id: 4,
            created: terminal(2),
            verified: terminal(3),
            captured: terminal(1),
            artifact: artifact(),
        },
        through_sequence: 3,
        deadline_ms: 1_000,
        max_package_bytes: 64,
        ignore_case: false,
    }
}

fn evidence(now_ms: u64) -> RecognitionReply {
    let event = |sequence: u64, kind: SourceEventKind| SourceEvent {
        sequence,
        event_id: u128::from(sequence) + 100,
        kind,
        frame_id: Some(4),
        run_id: Some(1),
        correlation_id: Some(2),
        request_id: Some(3),
        artifacts: vec![artifact()],
        frame: Some((10, 20)),
    };
    RecognitionReply::Evidence {
        ledger: SourceLedger {
            corrupt_tail: false,
            read_complete: true,
            writer_active: Some(false),
            latest_sequence: 3,
        },
        events: vec![
            event(1, SourceEventKind::CaptureCompleted),
            event(2, SourceEventKind::ArtifactCreated),
            event(3, SourceEventKind::ArtifactVerified),
        ],
        verification: SourceVerification::new(),
        now_ms,
    }
}

fn usual_reply(action: RecognitionAction) -> RecognitionReply {
    match action {
        RecognitionAction::ResolveSourceLedger => {
            RecognitionReply::Ledger { path: b"/source".to_vec() }
        }
        RecognitionAction::ResolveTargetLedger => {
            RecognitionReply::Ledger { path: b"/target".to_vec() }
        }
        RecognitionAction::OpenEvidence => evidence(10),
        RecognitionAction::ReadPackage => RecognitionReply::Package { byte_count: 64 },
        RecognitionAction::StoreReport => RecognitionReply::Stored { verified: true },
        _ => RecognitionReply::Done { now_ms: 10 },
    }
}

fn recognize(
    reply: impl Fn(RecognitionAction) -> RecognitionReply,
) -> (Vec<RecognitionAction>, RecognitionEnd) {
    let mut recognition = ArtifactRecognition::new();
    let mut trace = Vec::new();
    loop {
        let action = recognition.action;
        trace.push(action);
        match recognition.advance(&task(), reply(action)) {
            RecognitionProgress::Next(next) => recognition = next,
            RecognitionProgress::End(end) => return (trace, end),
        }
    }
}

fn refusal(end: RecognitionEnd) -> &'static str {
    match end {
        RecognitionEnd::Refused { error } => error.code(),
        other => panic!("not a refusal: {other:?}"),
    }
}

#[test]
fn a_saved_frame_is_recognized_step_by_step() {
    let (trace, end) = recognize(usual_reply);
    assert!(matches!(end, RecognitionEnd::Recognized { width: 10, height: 20 }));
    assert_eq!(
        trace,
        vec![
            RecognitionAction::AppendRequested,
            RecognitionAction::ResolveSourceRoot,
            RecognitionAction::ResolveSourceLedger,
            RecognitionAction::ResolveTargetLedger,
            RecognitionAction::OpenSourceLock,
            RecognitionAction::LockSource,
            RecognitionAction::OpenEvidence,
            RecognitionAction::ReadImage,
            RecognitionAction::OpenPackage,
            RecognitionAction::ReadPackage,
            RecognitionAction::ParsePackageHash,
            RecognitionAction::FindProvider,
            RecognitionAction::LoadBundle,
            RecognitionAction::Evaluate,
            RecognitionAction::EncodeReport,
            RecognitionAction::StoreReport,
            RecognitionAction::AppendCompleted,
        ]
    );
}

#[test]
fn each_failed_step_of_a_recognition_has_its_code() {
    let codes = [
        (RecognitionAction::ResolveSourceRoot, "saved_source_root_unavailable"),
        (RecognitionAction::ResolveSourceLedger, "saved_source_ledger_unavailable"),
        (RecognitionAction::ResolveTargetLedger, "saved_target_ledger_unavailable"),
        (RecognitionAction::OpenSourceLock, "saved_source_lock_unavailable"),
        (RecognitionAction::LockSource, "saved_source_not_frozen"),
        (RecognitionAction::OpenEvidence, "own_code"),
        (RecognitionAction::ReadImage, "own_code"),
        (RecognitionAction::OpenPackage, "saved_ocr_package_open_failed"),
        (RecognitionAction::ReadPackage, "saved_ocr_package_read_failed"),
        (RecognitionAction::ParsePackageHash, "saved_ocr_package_hash_invalid"),
        (RecognitionAction::FindProvider, "saved_ocr_provider_unavailable"),
        (RecognitionAction::LoadBundle, "saved_ocr_package_invalid"),
        (RecognitionAction::Evaluate, "saved_ocr_evaluation_failed"),
        (RecognitionAction::EncodeReport, "saved_ocr_serialization_failed"),
    ];
    for (failing, code) in codes {
        let (trace, end) = recognize(|action| {
            if action == failing {
                RecognitionReply::Failed { code: "own_code" }
            } else {
                usual_reply(action)
            }
        });
        assert_eq!(refusal(end), code);
        assert_eq!(
            trace[trace.len() - 3..],
            [failing, RecognitionAction::AppendFailed, RecognitionAction::RecordFailure]
        );
    }
}

#[test]
fn a_recognition_keeps_its_limits() {
    let late = [
        RecognitionAction::LockSource,
        RecognitionAction::LoadBundle,
        RecognitionAction::Evaluate,
    ];
    for step in late {
        let (_, end) = recognize(|action| {
            if action == step {
                RecognitionReply::Done { now_ms: 1_000 }
            } else {
                usual_reply(action)
            }
        });
        assert_eq!(refusal(end), "saved_ocr_deadline_exceeded");
    }
    let (_, end) = recognize(|action| match action {
        RecognitionAction::OpenEvidence => evidence(1_000),
        other => usual_reply(other),
    });
    assert_eq!(refusal(end), "saved_ocr_deadline_exceeded");
    let (_, end) = recognize(|action| match action {
        RecognitionAction::ReadPackage => RecognitionReply::Package { byte_count: 65 },
        other => usual_reply(other),
    });
    assert_eq!(refusal(end), "saved_ocr_package_limit");
    let (_, end) = recognize(|action| match action {
        RecognitionAction::ResolveTargetLedger => {
            RecognitionReply::Ledger { path: b"/source".to_vec() }
        }
        other => usual_reply(other),
    });
    assert_eq!(refusal(end), "saved_source_is_target");
    let (_, end) = recognize(|action| match action {
        RecognitionAction::StoreReport => RecognitionReply::Stored { verified: false },
        other => usual_reply(other),
    });
    assert_eq!(refusal(end), "saved_ocr_verified_event_missing");
}

#[test]
fn a_fatal_recognition_stops_the_host() {
    let error = RuntimeHostError::fatal("broken", "store", RuntimeErrorCode::RuntimeFatal);
    let (_, end) = recognize(|action| match action {
        RecognitionAction::StoreReport => RecognitionReply::HostFailed { error },
        other => usual_reply(other),
    });
    assert!(matches!(end, RecognitionEnd::Poisoned { recorded: true, .. }));
    let (_, end) = recognize(|action| match action {
        RecognitionAction::FindProvider => RecognitionReply::Failed { code: "none" },
        RecognitionAction::RecordFailure => RecognitionReply::HostFailed { error },
        other => usual_reply(other),
    });
    assert!(matches!(end, RecognitionEnd::Poisoned { recorded: false, .. }));
    let (_, end) = recognize(|_| RecognitionReply::HostFailed { error });
    assert!(matches!(end, RecognitionEnd::NotAppended { .. }));
}

#[test]
fn verified_artifacts_share_a_budget() {
    let mut verification = SourceVerification::new();
    assert!(verification.begin_artifact(7, 0, 10));
    assert!(!verification.begin_artifact(MAX_VERIFIED_SOURCE_BYTES, 0, 10));
    assert_eq!(verification.verified_bytes, 7);
    assert_eq!(
        verification.failure.expect("over budget").code(),
        "saved_source_artifact_budget"
    );
    assert!(!verification.begin_artifact(1, 10, 10));
    assert_eq!(verification.failure.expect("late").code(), "saved_ocr_deadline_exceeded");
    verification.artifact_failed("artifact_hash_mismatch");
    assert_eq!(verification.failure.expect("differs").code(), "artifact_hash_mismatch");
}

fn request(operation: LedgerMaintenanceOperation) -> LedgerMaintenanceRequest {
    let restore = operation == LedgerMaintenanceOperation::Restore;
    let verify = operation == LedgerMaintenanceOperation::Verify;
    LedgerMaintenanceRequest {
        operation,
        backup: if verify { None } else { Some("/backup".to_owned()) },
        target: if restore { Some("/target".to_owned()) } else { None },
        artifact_root: None,
        limits: MaintenanceLimits { max_bytes: 10, max_entries: 10, max_duration_ms: 10 },
    }
}

fn identity() -> LedgerSourceIdentity {
    LedgerSourceIdentity { source_sha256: "source".to_owned(), remainder: String::new() }
}

fn objects() -> Vec<ArtifactReference> {
    let object = |key: &str, byte_count: u64| ArtifactReference {
        object_key: Some(key.to_owned()),
        byte_count,
        remainder: String::new(),
    };
    vec![object("a", 3), object("a", 3), object("b", 4)]
}

fn backup() -> DatabaseBackup {
    DatabaseBackup {
        backup_id: "backup".to_owned(),
        warnings: vec!["slow".to_owned()],
        remainder: String::new(),
    }
}

fn bound() -> BackupBinding {
    BackupBinding {
        ledger: LedgerStorageStatus::Missing,
        state_sha256: "state".to_owned(),
        source: Some(identity()),
        artifacts: objects(),
    }
}

fn maintenance_reply(action: MaintenanceAction) -> MaintenanceReply {
    match action {
        MaintenanceAction::OpenRoot => MaintenanceReply::Opened {
            state_sha256: "state".to_owned(),
            ledger: LedgerStorageStatus::Missing,
        },
        MaintenanceAction::ReadSource
        | MaintenanceAction::ReadArchiveSource
        | MaintenanceAction::ReadTargetSource => {
            MaintenanceReply::Source { identity: identity(), artifacts: objects() }
        }
        MaintenanceAction::ReadFormal
        | MaintenanceAction::ReadArchiveFormal
        | MaintenanceAction::ReadTargetFormal => MaintenanceReply::Artifacts(objects()),
        MaintenanceAction::WriteBackup
        | MaintenanceAction::VerifyBackup
        | MaintenanceAction::VerifyBackupAgain => MaintenanceReply::Backup(backup()),
        MaintenanceAction::DecodeBinding => MaintenanceReply::Binding(Some(bound())),
        MaintenanceAction::OpenArchive | MaintenanceAction::OpenTarget => {
            MaintenanceReply::Digest("state".to_owned())
        }
        MaintenanceAction::ReadArchiveStatus | MaintenanceAction::ReadTargetStatus => {
            MaintenanceReply::Status(LedgerStorageStatus::Missing)
        }
        MaintenanceAction::ImportLedger => MaintenanceReply::Status(LedgerStorageStatus::Ready {
            head_sequence: 4,
            migration: Some(record()),
            remainder: String::new(),
        }),
        MaintenanceAction::MakeRecord => MaintenanceReply::Record(record()),
        MaintenanceAction::FindTarget => MaintenanceReply::Exists(false),
        _ => MaintenanceReply::Done,
    }
}

fn record() -> MigrationRecord {
    MigrationRecord {
        cutover_sequence: 4,
        backup_sha256: "backup".to_owned(),
        source_sha256: "source".to_owned(),
        remainder: String::new(),
    }
}

fn maintain(
    operation: LedgerMaintenanceOperation,
    reply: impl Fn(MaintenanceAction) -> MaintenanceReply,
) -> (Vec<MaintenanceAction>, Vec<(usize, u64, usize)>, MaintenanceOutcome) {
    let mut run = MaintenanceRun::start(&request(operation)).expect("request");
    let mut trace = Vec::new();
    let mut restored = Vec::new();
    loop {
        let action = run.action;
        trace.push(action);
        if action == MaintenanceAction::RestoreArtifact {
            restored.push((run.artifact, run.artifact_bytes, run.artifact_objects));
        }
        match run.advance(reply(action)) {
            MaintenanceProgress::Next(next) => run = next,
            MaintenanceProgress::End(outcome) => return (trace, restored, outcome),
        }
    }
}

fn fault(code: &str) -> LedgerMaintenanceFailure {
    LedgerMaintenanceFailure::new(code, "test", format!("{code} happened"))
}

#[test]
fn a_ledger_is_verified_where_it_is_stored() {
    let (trace, _, outcome) = maintain(LedgerMaintenanceOperation::Verify, maintenance_reply);
    assert_eq!(outcome.expect("verified").status, "verified-segment");
    assert_eq!(
        trace,
        vec![
            MaintenanceAction::AcquireOwner,
            MaintenanceAction::AcquireLedger,
            MaintenanceAction::OpenRoot,
            MaintenanceAction::ReadSource,
            MaintenanceAction::CloseLedger,
            MaintenanceAction::CloseOwner,
        ]
    );
    let (_, _, outcome) = maintain(LedgerMaintenanceOperation::Verify, |action| match action {
        MaintenanceAction::OpenRoot => MaintenanceReply::Opened {
            state_sha256: "state".to_owned(),
            ledger: LedgerStorageStatus::Ready {
                head_sequence: 4,
                migration: None,
                remainder: String::new(),
            },
        },
        other => maintenance_reply(other),
    });
    assert_eq!(outcome.expect("verified").status, "verified-sqlite");
    let (_, _, outcome) = maintain(LedgerMaintenanceOperation::Verify, |action| match action {
        MaintenanceAction::OpenRoot => MaintenanceReply::Opened {
            state_sha256: "state".to_owned(),
            ledger: LedgerStorageStatus::Candidate,
        },
        other => maintenance_reply(other),
    });
    assert_eq!(
        outcome.expect_err("candidate").code,
        "candidate_requires_explicit_disposition"
    );
}

#[test]
fn a_backup_is_read_back_before_it_counts() {
    let (trace, _, outcome) = maintain(LedgerMaintenanceOperation::Backup, maintenance_reply);
    let receipt = outcome.expect("backed up");
    assert_eq!(receipt.status, "backed-up");
    assert_eq!(receipt.backup_id.as_deref(), Some("backup"));
    assert_eq!(receipt.warnings, vec!["slow".to_owned()]);
    assert!(!receipt.activated);
    assert!(trace.contains(&MaintenanceAction::ReadArchiveSource));
    let (trace, _, outcome) = maintain(LedgerMaintenanceOperation::Backup, |action| match action {
        MaintenanceAction::OpenArchive => MaintenanceReply::Digest("other".to_owned()),
        MaintenanceAction::CloseArchive => MaintenanceReply::Failed(fault("close")),
        other => maintenance_reply(other),
    });
    let failure = outcome.expect_err("differs");
    assert_eq!(failure.code, "backup_projection_mismatch");
    assert_eq!(failure.cleanup, vec!["close happened".to_owned()]);
    assert_eq!(
        trace[trace.len() - 3..],
        [
            MaintenanceAction::CloseArchive,
            MaintenanceAction::CloseLedger,
            MaintenanceAction::CloseOwner,
        ]
    );
    let (_, _, outcome) = maintain(LedgerMaintenanceOperation::Backup, |action| match action {
        MaintenanceAction::VerifyBackupAgain => MaintenanceReply::Backup(DatabaseBackup {
            backup_id: "another".to_owned(),
            ..backup()
        }),
        other => maintenance_reply(other),
    });
    assert_eq!(outcome.expect_err("changed").code, "backup_changed");
    let (_, _, outcome) = maintain(LedgerMaintenanceOperation::Backup, |action| match action {
        MaintenanceAction::DecodeBinding => MaintenanceReply::Binding(None),
        other => maintenance_reply(other),
    });
    assert_eq!(outcome.expect_err("undecodable").code, "backup_binding_invalid");
}

#[test]
fn an_import_is_rehearsed_done_and_found_again() {
    let (_, _, outcome) = maintain(LedgerMaintenanceOperation::DryRun, maintenance_reply);
    let receipt = outcome.expect("rehearsed");
    assert_eq!(receipt.status, "dry-run");
    assert!(receipt.ledger.is_missing());
    let (_, _, outcome) = maintain(LedgerMaintenanceOperation::Import, maintenance_reply);
    let receipt = outcome.expect("imported");
    assert_eq!(receipt.status, "imported");
    assert!(!receipt.ledger.is_missing());
    let imported = |action| match action {
        MaintenanceAction::OpenRoot => MaintenanceReply::Opened {
            state_sha256: "later".to_owned(),
            ledger: LedgerStorageStatus::Ready {
                head_sequence: 9,
                migration: Some(record()),
                remainder: String::new(),
            },
        },
        other => maintenance_reply(other),
    };
    let (trace, _, outcome) = maintain(LedgerMaintenanceOperation::Import, imported);
    assert_eq!(outcome.expect("again").status, "already-imported");
    assert!(!trace.contains(&MaintenanceAction::ImportLedger));
    let (_, _, outcome) = maintain(LedgerMaintenanceOperation::Import, |action| match action {
        MaintenanceAction::ReadSource => MaintenanceReply::Source {
            identity: LedgerSourceIdentity { source_sha256: "x".to_owned(), ..identity() },
            artifacts: objects(),
        },
        other => maintenance_reply(other),
    });
    assert_eq!(outcome.expect_err("other source").code, "migration_backup_source_mismatch");
}

#[test]
fn a_restore_writes_each_object_once_into_a_new_target() {
    let (trace, restored, outcome) =
        maintain(LedgerMaintenanceOperation::Restore, maintenance_reply);
    assert_eq!(outcome.expect("restored").status, "restored");
    assert_eq!(restored, vec![(0, 3, 1), (2, 7, 2)]);
    assert_eq!(
        trace[trace.len() - 4..],
        [
            MaintenanceAction::CloseTargetLedger,
            MaintenanceAction::CloseTargetOwner,
            MaintenanceAction::CloseLedger,
            MaintenanceAction::CloseOwner,
        ]
    );
    let (trace, _, outcome) = maintain(LedgerMaintenanceOperation::Restore, |action| match action {
        MaintenanceAction::FindTarget => MaintenanceReply::Exists(true),
        other => maintenance_reply(other),
    });
    assert_eq!(outcome.expect_err("there").code, "restore_target_exists");
    assert!(!trace.contains(&MaintenanceAction::CreateTarget));
    let (_, _, outcome) = maintain(LedgerMaintenanceOperation::Restore, |action| match action {
        MaintenanceAction::OpenRoot => MaintenanceReply::Opened {
            state_sha256: "later".to_owned(),
            ledger: LedgerStorageStatus::Missing,
        },
        other => maintenance_reply(other),
    });
    assert_eq!(outcome.expect_err("advanced").code, "restore_state_has_advanced");
    let (trace, _, outcome) = maintain(LedgerMaintenanceOperation::Restore, |action| match action {
        MaintenanceAction::RestoreArtifact => MaintenanceReply::Failed(fault("disk")),
        MaintenanceAction::CloseOwner => MaintenanceReply::Failed(fault("owner")),
        other => maintenance_reply(other),
    });
    let failure = outcome.expect_err("disk");
    assert_eq!(failure.describe(), "disk happened; cleanup: owner happened");
    assert!(!trace.contains(&MaintenanceAction::CloseTargetLedger));
    assert!(trace.contains(&MaintenanceAction::CloseTargetOwner));
    let (_, _, outcome) = maintain(LedgerMaintenanceOperation::Restore, |action| match action {
        MaintenanceAction::OpenTarget => MaintenanceReply::Digest("other".to_owned()),
        other => maintenance_reply(other),
    });
    assert_eq!(outcome.expect_err("state").code, "restored_state_mismatch");
    let (_, _, outcome) = maintain(LedgerMaintenanceOperation::Restore, |action| match action {
        MaintenanceAction::ReadTargetSource => {
            MaintenanceReply::Source { identity: identity(), artifacts: Vec::new() }
        }
        other => maintenance_reply(other),
    });
    assert_eq!(outcome.expect_err("ledger").code, "restored_projection_mismatch");
}

fn switch(reply: impl Fn(SwitchAction) -> SwitchReply) -> (Vec<SwitchAction>, Result<(), &'static str>) {
    let mut switch = ReleaseSwitch::new();
    let mut trace = Vec::new();
    loop {
        let action = switch.action;
        trace.push(action);
        match switch.advance(reply(action)) {
            SwitchProgress::Next(next) => switch = next,
            SwitchProgress::End(end) => return (trace, end.map_err(|error| error.code())),
        }
    }
}

fn switch_reply(action: SwitchAction) -> SwitchReply {
    match action {
        SwitchAction::ReadFatal => SwitchReply::Stopped(None),
        SwitchAction::AppendSuccess => SwitchReply::Appended(TransitionAppend::Appended),
        _ => SwitchReply::Done,
    }
}

#[test]
fn a_release_is_switched_with_its_event() {
    let (trace, end) = switch(switch_reply);
    assert_eq!(end, Ok(()));
    assert_eq!(trace.last(), Some(&SwitchAction::PublishSuccess));
    let refused = |action| match action {
        SwitchAction::AppendSuccess => SwitchReply::Appended(TransitionAppend::RolledBack {
            code: "release_stale",
            operation: "apply",
            fatal: false,
        }),
        other => switch_reply(other),
    };
    let (trace, end) = switch(refused);
    assert_eq!(end, Err("release_stale"));
    assert_eq!(
        trace[trace.len() - 2..],
        [SwitchAction::AppendFailure, SwitchAction::PublishFailure]
    );
    let error = RuntimeHostError::request("late", "publish", RuntimeErrorCode::InvalidRequest);
    let (trace, end) = switch(|action| match action {
        SwitchAction::AppendFailure => SwitchReply::Failed(error),
        other => refused(other),
    });
    assert_eq!(end, Err("release_failure_fact_undurable"));
    assert_eq!(trace.last(), Some(&SwitchAction::MarkFatal));
    let (trace, end) = switch(|action| match action {
        SwitchAction::PublishSuccess => SwitchReply::Failed(error),
        other => switch_reply(other),
    });
    assert_eq!(end, Err("late"));
    assert_eq!(trace.last(), Some(&SwitchAction::MarkFatal));
    let (trace, end) = switch(|action| match action {
        SwitchAction::PreviewTransition => SwitchReply::Failed(error),
        other => switch_reply(other),
    });
    assert_eq!(end, Err("late"));
    assert_eq!(trace.last(), Some(&SwitchAction::PreviewTransition));
}

fn release(sequence: u64, payload: ReleasePayload) -> ReleaseEvent {
    ReleaseEvent {
        sequence,
        origin: EventOrigin {
            source: EventParty::Runtime,
            module: EventParty::Runtime,
            actor: EventParty::Runtime,
        },
        correlation_id: Some(1),
        action_id: Some(2),
        payload,
    }
}

fn transition() -> ReleaseTransition {
    ReleaseTransition {
        kind: ReleaseTransitionKind::Rollback,
        transition_id: "t".to_owned(),
        encoding: "e".to_owned(),
        recovered_encoding: "r".to_owned(),
    }
}

fn recovery_reply(action: RecoveryAction, after: u64) -> RecoveryReply {
    let page = |event: ReleaseEvent| {
        if after < event.sequence {
            RecoveryReply::Page(vec![event])
        } else {
            RecoveryReply::Page(Vec::new())
        }
    };
    match action {
        RecoveryAction::ReadCut(..) => RecoveryReply::Cut(9),
        RecoveryAction::ReadPage(FactKind::StateMigrated, _) => {
            page(release(1, ReleasePayload::StateMigrated { state_key: "baseline".to_owned() }))
        }
        RecoveryAction::ReadPage(FactKind::Release(ReleaseEventType::RolledBack), _) => {
            page(release(4, ReleasePayload::RolledBack { transition: transition() }))
        }
        RecoveryAction::ReadPage(FactKind::TransitionIntent, _) => {
            page(release(3, ReleasePayload::TransitionIntent { transition: transition() }))
        }
        RecoveryAction::ReadPage(..) => RecoveryReply::Page(Vec::new()),
        RecoveryAction::PrepareBoundary => RecoveryReply::Boundary { needed: false, migration: true },
        RecoveryAction::AppendBoundary | RecoveryAction::AppendMember => {
            RecoveryReply::Appended(TransitionAppend::Appended)
        }
        RecoveryAction::ReadMembers => RecoveryReply::Members(vec![
            ReleaseBaselineMember::Generation { release_id: "r1".to_owned() },
            ReleaseBaselineMember::Transition { transition: transition() },
        ]),
        RecoveryAction::PrepareMember => RecoveryReply::Needed(true),
        RecoveryAction::CheckOutcome(_) => RecoveryReply::Valid(true),
        _ => RecoveryReply::Done,
    }
}

fn read_after(recovery: &ReleaseRecovery) -> u64 {
    match recovery.action {
        RecoveryAction::ReadPage(_, ReadPurpose::Facts(_) | ReadPurpose::Intents) => recovery.after,
        _ => recovery.search.after,
    }
}

fn recover(
    reply: impl Fn(RecoveryAction, u64) -> RecoveryReply,
) -> (Vec<RecoveryAction>, Vec<Option<u64>>, Result<(), &'static str>) {
    let mut recovery = ReleaseRecovery::new();
    let mut trace = Vec::new();
    let mut found = Vec::new();
    loop {
        let action = recovery.action;
        trace.push(action);
        if matches!(action, RecoveryAction::PrepareBoundary | RecoveryAction::PrepareMember) {
            found.push(recovery.search.found.as_ref().map(|event| event.sequence));
        }
        if action == RecoveryAction::VerifyOutcome {
            found.push(recovery.completion.as_ref().map(|event| event.sequence));
        }
        let reply = reply(action, read_after(&recovery));
        match recovery.advance("baseline", reply) {
            RecoveryProgress::Next(next) => recovery = next,
            RecoveryProgress::End(end) => return (trace, found, end.map_err(|error| error.code())),
        }
    }
}

#[test]
fn recovery_brings_release_state_and_ledger_together() {
    let (trace, found, end) = recover(recovery_reply);
    assert_eq!(end, Ok(()));
    assert_eq!(found, vec![Some(1), None, Some(4), Some(4)]);
    let read = |kind: FactKind, purpose: ReadPurpose, pages: usize| {
        let mut reads = vec![RecoveryAction::ReadCut(kind, purpose)];
        for _ in 0..pages {
            reads.push(RecoveryAction::ReadPage(kind, purpose));
        }
        reads
    };
    let staged = FactKind::Release(ReleaseEventType::Staged);
    let activated = FactKind::Release(ReleaseEventType::Activated);
    let rolled_back = FactKind::Release(ReleaseEventType::RolledBack);
    let mut expected = read(FactKind::StateMigrated, ReadPurpose::Boundary, 2);
    expected.push(RecoveryAction::PrepareBoundary);
    expected.push(RecoveryAction::ReadMembers);
    expected.extend(read(staged, ReadPurpose::Member, 1));
    expected.push(RecoveryAction::PrepareMember);
    expected.push(RecoveryAction::ReadManifest);
    expected.push(RecoveryAction::AppendMember);
    expected.extend(read(rolled_back, ReadPurpose::Member, 2));
    expected.push(RecoveryAction::PrepareMember);
    expected.push(RecoveryAction::AppendMember);
    expected.push(RecoveryAction::VerifyReady);
    expected.extend(read(staged, ReadPurpose::Facts(ReleaseEventType::Staged), 1));
    expected.extend(read(activated, ReadPurpose::Facts(ReleaseEventType::Activated), 1));
    let visited = ReadPurpose::Facts(ReleaseEventType::RolledBack);
    expected.extend(read(rolled_back, visited, 1));
    expected.push(RecoveryAction::VerifyFact(ReleaseEventType::RolledBack));
    expected.push(RecoveryAction::ReadPage(rolled_back, visited));
    expected.extend(read(FactKind::TransitionIntent, ReadPurpose::Intents, 1));
    expected.extend(read(rolled_back, ReadPurpose::Completion, 2));
    expected.extend(read(FactKind::TransitionFailed, ReadPurpose::Failure, 1));
    expected.push(RecoveryAction::CheckOutcome(IntentCheck::Completed));
    expected.push(RecoveryAction::VerifyOutcome);
    expected.push(RecoveryAction::ReadPage(FactKind::TransitionIntent, ReadPurpose::Intents));
    assert_eq!(trace, expected);
}

#[test]
fn a_refused_fact_ends_recovery_before_the_next_page() {
    let refused = RuntimeHostError::request("fact_refused", "verify", RuntimeErrorCode::InvalidRequest);
    let lost = RuntimeHostError::request("page_lost", "read", RuntimeErrorCode::LedgerFailure);
    let visited = ReadPurpose::Facts(ReleaseEventType::RolledBack);
    let second = move |action: RecoveryAction, after: u64| match action {
        RecoveryAction::ReadPage(_, purpose) if purpose == visited && after == 4 => {
            Some(RecoveryReply::Failed(lost))
        }
        _ => None,
    };
    let (_, _, end) = recover(|action, after| match second(action, after) {
        Some(reply) => reply,
        None => recovery_reply(action, after),
    });
    assert_eq!(end, Err("page_lost"));
    let (trace, _, end) = recover(|action, after| match (action, second(action, after)) {
        (RecoveryAction::VerifyFact(_), _) => RecoveryReply::Failed(refused),
        (_, Some(reply)) => reply,
        (_, None) => recovery_reply(action, after),
    });
    assert_eq!(end, Err("fact_refused"));
    assert_eq!(trace.last(), Some(&RecoveryAction::VerifyFact(ReleaseEventType::RolledBack)));
}

#[test]
fn recovery_refuses_what_it_cannot_resolve() {
    let refused = |at: fn(RecoveryAction) -> Option<RecoveryReply>| {
        let (_, _, end) = recover(|action, after| match at(action) {
            Some(reply) => reply,
            None => recovery_reply(action, after),
        });
        end
    };
    assert_eq!(
        refused(|action| match action {
            RecoveryAction::PrepareBoundary => {
                Some(RecoveryReply::Boundary { needed: true, migration: false })
            }
            _ => None,
        }),
        Err("release_boundary_migration_missing")
    );
    assert_eq!(
        refused(|action| match action {
            RecoveryAction::ReadMembers => {
                Some(RecoveryReply::Members(vec![ReleaseBaselineMember::Pointer]))
            }
            _ => None,
        }),
        Err("release_recovery_member_invalid")
    );
    assert_eq!(
        refused(|action| match action {
            RecoveryAction::ReadCut(FactKind::Release(ReleaseEventType::RolledBack), _) => {
                Some(RecoveryReply::Cut(3))
            }
            _ => None,
        }),
        Err("release_recovery_cursor_invalid")
    );
    assert_eq!(
        refused(|action| match action {
            RecoveryAction::ReadPage(FactKind::StateMigrated, _) => {
                Some(RecoveryReply::Page(vec![
                    release(1, ReleasePayload::StateMigrated { state_key: "baseline".to_owned() }),
                    release(2, ReleasePayload::StateMigrated { state_key: "baseline".to_owned() }),
                ]))
            }
            _ => None,
        }),
        Err("release_fact_identity_conflict")
    );
    assert_eq!(
        refused(|action| match action {
            RecoveryAction::ReadPage(FactKind::TransitionIntent, _) => {
                let mut intent =
                    release(3, ReleasePayload::TransitionIntent { transition: transition() });
                intent.origin.actor = EventParty::Other(1);
                Some(RecoveryReply::Page(vec![intent]))
            }
            _ => None,
        }),
        Err("release_intent_origin_invalid")
    );
    assert_eq!(
        refused(|action| match action {
            RecoveryAction::CheckOutcome(_) => Some(RecoveryReply::Valid(false)),
            _ => None,
        }),
        Err("release_outcome_identity_mismatch")
    );
    assert_eq!(
        refused(|action| match action {
            RecoveryAction::AppendMember => {
                Some(RecoveryReply::Appended(TransitionAppend::LedgerFailed {
                    code: "ledger_full",
                    operation: "append",
                }))
            }
            _ => None,
        }),
        Err("ledger_full")
    );
}

fn close_retained(
    reuse: bool,
    reply: impl Fn(RetainedAction) -> RetainedReply,
) -> (Vec<RetainedAction>, RetainedEnd) {
    let mut close = RetainedClose::new(reuse);
    let mut trace = Vec::new();
    loop {
        let action = close.action;
        trace.push(action);
        match close.advance(reply(action)) {
            RetainedProgress::Next(next) => close = next,
            RetainedProgress::End(end) => return (trace, end),
        }
    }
}

fn retained_reply(action: RetainedAction) -> RetainedReply {
    match action {
        RetainedAction::InspectResources | RetainedAction::FindInstance => {
            RetainedReply::Answer(true)
        }
        RetainedAction::ReadLease => RetainedReply::Answer(false),
        _ => RetainedReply::Done,
    }
}

#[test]
fn a_retained_instance_is_closed_under_a_lease() {
    let (trace, end) = close_retained(false, retained_reply);
    assert!(matches!(end, RetainedEnd::Closed));
    assert_eq!(
        trace,
        vec![
            RetainedAction::InspectResources,
            RetainedAction::ReadLease,
            RetainedAction::FindInstance,
            RetainedAction::AcquireLease,
            RetainedAction::CloseResources,
            RetainedAction::ReleaseLease,
        ]
    );
    let (trace, end) = close_retained(false, |action| match action {
        RetainedAction::CloseResources => {
            RetainedReply::CloseFailed(Some(ResourceQuiescence::Unconfirmed))
        }
        other => retained_reply(other),
    });
    assert!(matches!(end, RetainedEnd::CloseError));
    assert!(!trace.contains(&RetainedAction::ReleaseLease));
    let (trace, end) = close_retained(false, |action| match action {
        RetainedAction::CloseResources => {
            RetainedReply::CloseFailed(Some(ResourceQuiescence::Confirmed))
        }
        other => retained_reply(other),
    });
    assert!(matches!(end, RetainedEnd::CloseError));
    assert!(trace.contains(&RetainedAction::ReleaseLease));
    let leased = |action| match action {
        RetainedAction::ReadLease => RetainedReply::Answer(true),
        other => retained_reply(other),
    };
    let (_, end) = close_retained(false, leased);
    assert!(matches!(end, RetainedEnd::Busy));
    let (trace, end) = close_retained(true, leased);
    assert!(matches!(end, RetainedEnd::Closed));
    assert!(!trace.contains(&RetainedAction::ReleaseLease));
    let (_, end) = close_retained(false, |action| match action {
        RetainedAction::FindInstance => RetainedReply::Answer(false),
        other => retained_reply(other),
    });
    match end {
        RetainedEnd::Failed(error) => assert_eq!(error.code(), "resource_close_instance_missing"),
        other => panic!("unexpected end: {other:?}"),
    }
}

#[test]
fn a_failed_operation_closes_before_it_is_answered() {
    assert!(matches!(
        FailureCleanup::after_capture("execution_session_close_pending", true),
        CleanupProgress::End(CleanupEnd::Primary)
    ));
    assert!(matches!(
        FailureCleanup::after_capture("capture_failed", false),
        CleanupProgress::End(CleanupEnd::Primary)
    ));
    assert!(matches!(
        FailureCleanup::after_capture("capture_failed", true),
        CleanupProgress::Next(_)
    ));
    assert!(matches!(
        FailureCleanup::after_input().advance(CleanupReply::CloseError),
        CleanupProgress::End(CleanupEnd::Merged)
    ));
    let error = RuntimeHostError::request("held", "close", RuntimeErrorCode::InvalidRequest);
    let mut progress = FailureCleanup::after_input().advance(CleanupReply::Failed(error));
    let mut trace = Vec::new();
    let end = loop {
        match progress {
            CleanupProgress::Next(next) => {
                trace.push(next.action);
                progress = next.advance(CleanupReply::Done);
            }
            CleanupProgress::End(end) => break end,
        }
    };
    assert_eq!(
        trace,
        vec![
            CleanupAction::AppendPrimary,
            CleanupAction::AppendCleanup,
            CleanupAction::RetainOwner,
            CleanupAction::MarkFatal,
        ]
    );
    match end {
        CleanupEnd::Failed(stop) => assert!(stop.is_fatal() && stop.code() == "held"),
        other => panic!("unexpected end: {other:?}"),
    }
}

fn stage(reply: impl Fn(StageAction) -> StageReply) -> (Vec<StageAction>, Result<(), &'static str>) {
    let mut stage = ReleaseStage::new();
    let mut trace = Vec::new();
    loop {
        let action = stage.action;
        trace.push(action);
        match stage.advance(reply(action)) {
            StageProgress::Next(next) => stage = next,
            StageProgress::End(end) => return (trace, end.map_err(|error| error.code())),
        }
    }
}

fn stage_reply(action: StageAction) -> StageReply {
    match action {
        StageAction::ReadFatal => StageReply::Stopped(None),
        StageAction::PrepareStage => StageReply::Needed(true),
        StageAction::AppendStaged => StageReply::Appended(TransitionAppend::Appended),
        _ => StageReply::Done,
    }
}

#[test]
fn a_release_is_staged_with_its_event() {
    let (trace, end) = stage(stage_reply);
    assert_eq!(end, Ok(()));
    assert_eq!(trace.last(), Some(&StageAction::ObservePipeline));
    let (trace, end) = stage(|action| match action {
        StageAction::PrepareStage => StageReply::Needed(false),
        other => stage_reply(other),
    });
    assert_eq!(end, Ok(()));
    assert!(!trace.contains(&StageAction::AppendStaged));
    let (trace, end) = stage(|action| match action {
        StageAction::AppendStaged => StageReply::Appended(TransitionAppend::LedgerFailed {
            code: "ledger_full",
            operation: "append",
        }),
        other => stage_reply(other),
    });
    assert_eq!(end, Err("ledger_full"));
    assert_eq!(trace.last(), Some(&StageAction::MarkFatal));
}
