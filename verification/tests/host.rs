//! Facts, startup packages, saved artifacts, releases and resources.

use runtime_host::error::{RuntimeErrorCode, RuntimeHostError};
use runtime_host::fact_producers::{
    backend_selfcheck_facts, backend_selfcheck_status, changed_instance_string_fact,
    settlement_fact_records, task_settlement_fact_key, validate_settlement_fact_keys,
    BackendObservationStatus, BackendOpenEntry, BackendOpenReport, PolicySettlement,
};
use runtime_host::ordered_map::OrderedMap;
use runtime_host::owner::OwnerResourceDisposition;
use runtime_host::release_state::{
    check_intent, find_release_fact, reconcile_intent, settle_intent, EventOrigin, EventParty,
    FactQuery, FactSearch, IntentCheck, ReleaseEvent, ReleaseEventType, ReleasePayload,
    ReleaseTransition, ReleaseTransitionKind,
};
use runtime_host::resource_close::{
    owner_close_disposition, CloseAction, CloseEnd, CloseProgress, CloseReply, ResourceClose,
};
use runtime_host::runtime_facts::{
    begin_replay, check_fact_scope, drop_untrusted, precheck_runtime_fact, replay_appended, runtime_fact_code,
    takeover_invalidations, FactEvent, FactEventPayload, FactValue, OriginModule, ReplayCause,
    RuntimeFactChange, RuntimeFactError, RuntimeFactRecord, RuntimeFactScope, RuntimeFactStore,
};
use runtime_host::saved_artifact::{
    add_verified_bytes, check_deadline, check_package_size, check_source_frozen,
    check_source_root, prove_source, request_deadline, same_root, SavedArtifactSource,
    SourceArtifact, SourceEvent, SourceEventKind, SourceLedger, TerminalEvent,
    MAX_VERIFIED_SOURCE_BYTES,
};
use runtime_host::startup_package::{
    find_by_alias, package_failure_detail, plan_package_failure_record, resolve_startup_packages,
    ContainedTaskRequest, ExecutionBackendProvenance, HostPackageRun, PackageFailureRecord,
    RegisteredInstance,
};
use runtime_host::diagnostic_plan::{
    ArtifactEventShape, BatchShape, GuardShape, PageShape, RecordKind, RecordPlan, TargetShape,
    TaskDiagnostic, TextShape,
};
use runtime_host::task_diagnostic::{
    end_diagnostic_step, ocr_block_order, source_order, DiagnosticFailure, DiagnosticStep,
    DiagnosticStream, RecordWriter,
};

fn fact(instance_id: u128, key: &str, value: i64, at: u64) -> RuntimeFactRecord {
    RuntimeFactRecord {
        scope: RuntimeFactScope::Instance { instance_id },
        key: key.to_owned(),
        value: FactValue::Integer(value),
        observed_at_unix_ms: at,
        source: OriginModule::Runtime,
        ttl_ms: None,
    }
}

#[test]
fn the_fact_store_keeps_the_latest_of_each_fact() {
    let mut store = RuntimeFactStore::new(1);
    assert_eq!(
        store.record(fact(1, "a", 1, 10), Ok(())).expect("first"),
        RuntimeFactChange::Inserted
    );
    assert_eq!(
        store.record(fact(1, "a", 2, 11), Ok(())).expect("second"),
        RuntimeFactChange::Replaced
    );
    assert_eq!(
        store.record(fact(1, "a", 2, 11), Ok(())).expect("again"),
        RuntimeFactChange::Unchanged
    );
    let stale = store.record(fact(1, "a", 3, 5), Ok(())).expect_err("stale");
    assert_eq!(runtime_fact_code(&stale), "runtime_fact_stale");
    let full = store.record(fact(1, "b", 3, 12), Ok(())).expect_err("full");
    assert_eq!(runtime_fact_code(&full), "runtime_fact_capacity_exceeded");
    let refused = store.record(fact(1, "a", 3, 12), Err("fact_key_invalid")).expect_err("invalid");
    assert!(matches!(refused, RuntimeFactError::Invalid { code: "fact_key_invalid" }));
    let scope = RuntimeFactScope::Instance { instance_id: 1 };
    assert!(precheck_runtime_fact(&store, &fact(1, "a", 2, 11), Ok(())).is_ok());
    store.invalidate(scope, "a").expect("known");
    let missing = store.invalidate(scope, "a").expect_err("gone");
    assert_eq!(runtime_fact_code(&missing), "runtime_fact_missing");
    assert_eq!(
        check_fact_scope(scope, &vec![2]).expect_err("unknown").code(),
        "runtime_fact_instance_unknown"
    );
    check_fact_scope(RuntimeFactScope::Runtime, &Vec::new()).expect("the runtime is known");
}

fn event(sequence: u64, payload: FactEventPayload) -> FactEvent {
    FactEvent { sequence, payload, validity: Ok(()) }
}

#[test]
fn a_snapshot_stands_for_the_events_before_it() {
    let recorded = |sequence, record| event(sequence, FactEventPayload::Recorded { record });
    let all = vec![
        recorded(1, fact(1, "a", 1, 10)),
        recorded(2, fact(1, "b", 1, 11)),
        recorded(3, fact(1, "a", 2, 12)),
    ];
    let (mut whole, from) = begin_replay(8, &Vec::new()).expect("empty");
    assert_eq!(from, 1);
    replay_appended(&mut whole, &all).expect("replayed");
    let snapshot = event(
        2,
        FactEventPayload::Snapshot {
            records: vec![fact(1, "a", 1, 10), fact(1, "b", 1, 11)],
        },
    );
    let (mut short, from) = begin_replay(8, &vec![snapshot]).expect("snapshot");
    assert_eq!(from, 3);
    replay_appended(&mut short, &vec![recorded(3, fact(1, "a", 2, 12))]).expect("replayed");
    let left = whole.snapshot();
    let right = short.snapshot();
    assert_eq!(left.len(), 2);
    assert!(left.iter().zip(right.iter()).all(|(left, right)| left.same(right)));
    let failure = replay_appended(&mut short, &vec![event(9, FactEventPayload::Other)])
        .expect_err("no fact");
    assert_eq!(failure.error.code(), "runtime_fact_replay_failed");
    assert_eq!(
        failure.detailed("").native_detail.as_deref(),
        Some("sequence 9: unexpected event under origin module runtime-facts")
    );
    let failure = begin_replay(8, &vec![event(7, FactEventPayload::Other)])
        .err()
        .expect("no snapshot");
    assert_eq!(
        failure.detailed("").native_detail.as_deref(),
        Some("sequence 7: payload is not runtime.fact_snapshot")
    );
    let last = event(u64::MAX, FactEventPayload::Snapshot { records: Vec::new() });
    assert!(matches!(
        begin_replay(8, &vec![last]).err().expect("no sequence follows").cause,
        ReplayCause::SequenceOverflow
    ));
    let stale = vec![recorded(8, fact(1, "a", 9, 1))];
    let failure = replay_appended(&mut short, &stale).expect_err("stale");
    assert!(matches!(failure.cause, ReplayCause::Refused(RuntimeFactError::Stale { .. })));
    assert_eq!(failure.detailed("too old").native_detail.as_deref(), Some("sequence 8: too old"));
}

#[test]
fn a_takeover_drops_only_what_the_last_owner_saw_of_devices() {
    let mut store = RuntimeFactStore::new(8);
    for key in ["device.x", "backend.selfcheck.input.status", "task.page", "task.a.last_outcome"] {
        store.record(fact(1, key, 1, 10), Ok(())).expect("recorded");
    }
    let listed = takeover_invalidations(&store, 99);
    assert_eq!(
        listed.iter().map(|invalidation| invalidation.key.as_str()).collect::<Vec<_>>(),
        ["backend.selfcheck.input.status", "device.x", "task.page"]
    );
    assert!(listed.iter().all(|invalidation| invalidation.at_unix_ms == 99));
    assert_eq!(store.snapshot().len(), 4);
    drop_untrusted(&mut store, 2);
    assert_eq!(store.snapshot().len(), 4);
    drop_untrusted(&mut store, 1);
    assert_eq!(store.snapshot()[0].key, "task.a.last_outcome");
    assert_eq!(store.snapshot().len(), 1);
}

fn report(entry: BackendOpenEntry, input: BackendObservationStatus) -> BackendOpenReport {
    BackendOpenReport {
        entry,
        status: BackendObservationStatus::Passed,
        connection: BackendObservationStatus::Passed,
        input_check: input,
        capture_check: BackendObservationStatus::Passed,
        session_generation: 3,
        selected: Some("adb".to_owned()),
    }
}

#[test]
fn a_self_check_passes_only_if_all_that_matters_passed() {
    let passed = BackendObservationStatus::Passed;
    let failed = BackendObservationStatus::Failed;
    let unobserved = BackendObservationStatus::Unobserved;
    assert_eq!(backend_selfcheck_status(&report(BackendOpenEntry::NemuPair, passed)), "passed");
    assert_eq!(backend_selfcheck_status(&report(BackendOpenEntry::NemuPair, failed)), "failed");
    assert_eq!(backend_selfcheck_status(&report(BackendOpenEntry::Input, unobserved)), "unknown");
    assert_eq!(backend_selfcheck_status(&report(BackendOpenEntry::Capture, failed)), "passed");
    let facts = backend_selfcheck_facts(1, &report(BackendOpenEntry::Input, passed), 10)
        .expect("facts");
    assert_eq!(facts[0].key, "backend.selfcheck.input.status");
    let overflow = BackendOpenReport {
        session_generation: u64::MAX,
        ..report(BackendOpenEntry::Input, passed)
    };
    assert_eq!(
        backend_selfcheck_facts(1, &overflow, 10).err().expect("too large").code(),
        "backend_selfcheck_fact_overflow"
    );
}

#[test]
fn a_settlement_is_recorded_as_facts_of_its_task() {
    let settlement = PolicySettlement {
        instance_alias: "node.a".to_owned(),
        catalog_task_id: "daily".to_owned(),
        duration_ms: 7,
        succeeded: true,
        failure_streak: 0,
        completed_at_unix_ms: 20,
    };
    let facts = settlement_fact_records(&settlement, 1).expect("facts");
    assert_eq!(
        facts.iter().map(|fact| fact.key.as_str()).collect::<Vec<_>>(),
        [
            "task.daily.last_duration_ms",
            "task.daily.last_outcome",
            "task.daily.failure_streak",
            "task.daily.completed_at_unix_ms",
        ]
    );
    assert_eq!(task_settlement_fact_key("daily", "x"), "task.daily.x");
    validate_settlement_fact_keys(&vec!["x".repeat(101)]).expect("fits");
    let unfit = vec!["a".to_owned(), "x".repeat(103), "y".repeat(129)];
    let refusal = validate_settlement_fact_keys(&unfit).expect_err("too long");
    assert_eq!(refusal.code(), "task_id_too_long_for_facts");
    assert_eq!(
        refusal.native_detail.expect("detail"),
        format!(
            "task id '{}' is 103 bytes; its settlement fact keys allow at most 102 bytes",
            "x".repeat(103)
        )
    );
    let mut store = RuntimeFactStore::new(4);
    let changed = changed_instance_string_fact(&store, 1, "task.page", "home", 5).expect("new");
    store.record(changed, Ok(())).expect("recorded");
    assert!(changed_instance_string_fact(&store, 1, "task.page", "home", 6).is_none());
    assert!(changed_instance_string_fact(&store, 1, "task.page", "other", 6).is_some());
}

fn instance(alias: &str, provenance: ExecutionBackendProvenance) -> RegisteredInstance {
    RegisteredInstance { instance_id: 5, instance_alias: alias.to_owned(), provenance }
}

#[test]
fn startup_packages_belong_to_physical_instances() {
    let configured = |alias: &str| {
        let mut packages = OrderedMap::new();
        packages.insert(
            alias.to_owned(),
            ContainedTaskRequest { package_path: "/p".to_owned(), expected_sha256: "s".to_owned() },
        );
        packages
    };
    let physical = vec![instance("node.a", ExecutionBackendProvenance::PhysicalDevice)];
    let resolved = resolve_startup_packages(&configured("node.a"), &physical).expect("resolved");
    assert_eq!(resolved.get(&5).expect("package").package_path, "/p");
    assert!(find_by_alias(&physical, "node.b").is_none());
    let unknown =
        resolve_startup_packages(&configured("node.b"), &physical).err().expect("unknown");
    assert_eq!(unknown.code(), "startup_package_instance_unknown");
    assert_eq!(unknown.native_detail.as_deref(), Some("instance_alias=node.b"));
    let fixture = vec![instance("node.a", ExecutionBackendProvenance::Fixture)];
    assert_eq!(
        resolve_startup_packages(&configured("node.a"), &fixture).err().expect("fixture").code(),
        "startup_package_requires_physical_instance"
    );
    let error = RuntimeHostError::request("x", "y", RuntimeErrorCode::InvalidRequest);
    assert!(matches!(
        plan_package_failure_record(HostPackageRun::ReturnHome, &error, false),
        PackageFailureRecord::Event { fatal_severity: false, category: "recovery_ladder" }
    ));
}

#[test]
fn a_saved_artifact_is_read_from_a_frozen_source() {
    assert!(same_root(&b"C:/A".to_vec(), &b"c:/a".to_vec(), true));
    assert_eq!(
        check_source_root(&b"/a".to_vec(), &b"/a".to_vec(), false).expect_err("same").code(),
        "saved_source_is_target"
    );
    let frozen = SourceLedger {
        corrupt_tail: false,
        read_complete: true,
        writer_active: Some(false),
        latest_sequence: 9,
    };
    check_source_frozen(&frozen, 9).expect("frozen");
    let cut = SourceLedger { read_complete: false, ..frozen };
    assert_eq!(check_source_frozen(&cut, 9).expect_err("cut").code(), "saved_source_incomplete");
    assert_eq!(
        add_verified_bytes(MAX_VERIFIED_SOURCE_BYTES, 1).expect_err("budget").code(),
        "saved_source_artifact_budget"
    );
    assert_eq!(add_verified_bytes(3, 4).expect("sum"), 7);
    assert_eq!(check_package_size(2, 1).expect_err("size").code(), "saved_ocr_package_limit");
    assert_eq!(check_deadline(10, 10).expect_err("late").code(), "saved_ocr_deadline_exceeded");
    assert_eq!(request_deadline(10, 5).expect("deadline"), 15);
    assert_eq!(
        request_deadline(u64::MAX, 1).expect_err("overflow").code(),
        "saved_ocr_deadline_overflow"
    );
}

#[test]
fn a_saved_artifact_is_proved_by_the_events_of_its_frame() {
    let artifact = SourceArtifact {
        run_id: Some(1),
        correlation_id: Some(2),
        remainder: "png".to_owned(),
    };
    let event = |sequence: u64, kind: SourceEventKind| SourceEvent {
        sequence,
        event_id: u128::from(sequence) + 100,
        kind,
        frame_id: Some(4),
        run_id: Some(1),
        correlation_id: Some(2),
        request_id: Some(3),
        artifacts: vec![artifact.clone()],
        frame: Some((10, 20)),
    };
    let events = vec![
        event(1, SourceEventKind::CaptureCompleted),
        event(2, SourceEventKind::ArtifactCreated),
        event(3, SourceEventKind::ArtifactVerified),
    ];
    let terminal = |sequence: u64| TerminalEvent { sequence, event_id: u128::from(sequence) + 100 };
    let source = SavedArtifactSource {
        frame_id: 4,
        created: terminal(2),
        verified: terminal(3),
        captured: terminal(1),
        artifact: artifact.clone(),
    };
    assert_eq!(prove_source(&events, &source).expect("proved"), 0);
    let other = SavedArtifactSource {
        artifact: SourceArtifact { remainder: "jpg".to_owned(), ..artifact.clone() },
        ..source.clone()
    };
    assert_eq!(
        prove_source(&events, &other).expect_err("other artifact").code(),
        "saved_source_artifact_mismatch"
    );
    let wrong = SavedArtifactSource { captured: terminal(2), ..source };
    assert_eq!(
        prove_source(&events, &wrong).expect_err("no capture").code(),
        "saved_source_event_mismatch"
    );
}

fn release(sequence: u64, payload: ReleasePayload) -> ReleaseEvent {
    ReleaseEvent {
        sequence,
        origin: EventOrigin {
            source: EventParty::Runtime,
            module: EventParty::Runtime,
            actor: EventParty::Runtime,
        },
        correlation_id: Some(1),
        action_id: Some(2),
        payload,
    }
}

fn transition() -> ReleaseTransition {
    ReleaseTransition {
        kind: ReleaseTransitionKind::Activate,
        transition_id: "t1".to_owned(),
        encoding: "e".to_owned(),
        recovered_encoding: "r".to_owned(),
    }
}

#[test]
fn a_release_intent_is_settled_by_its_outcome() {
    let intent = release(1, ReleasePayload::TransitionIntent { transition: transition() });
    let done = vec![release(2, ReleasePayload::Activated { transition: transition() })];
    assert_eq!(check_intent(&intent).expect("own"), ReleaseEventType::Activated);
    let completion = Some(done[0].clone());
    let check = reconcile_intent(&intent, &completion, &None).expect("completed");
    assert_eq!(check, IntentCheck::Completed);
    settle_intent(check, true).expect("settled");
    assert_eq!(
        settle_intent(check, false).expect_err("other identity").code(),
        "release_outcome_identity_mismatch"
    );
    let failure = Some(release(
        3,
        ReleasePayload::TransitionFailed { transition: transition(), not_performed: true },
    ));
    assert_eq!(
        reconcile_intent(&intent, &None, &failure).expect("not performed"),
        IntentCheck::Failed
    );
    assert_eq!(
        reconcile_intent(&intent, &completion, &failure).expect_err("both").code(),
        "release_transition_effect_unresolved"
    );
    assert_eq!(
        reconcile_intent(&intent, &None, &None).expect_err("neither").code(),
        "release_transition_effect_unresolved"
    );
    let start = || FactSearch { through: 9, after: 0, found: None };
    let t1 = FactQuery::Identity("t1");
    let search = find_release_fact(start(), done.clone(), t1).expect("found");
    assert_eq!(search.found.as_ref().map(|event| event.sequence), Some(2));
    assert_eq!(search.after, 2);
    let other = vec![release(3, ReleasePayload::Activated { transition: transition() })];
    assert_eq!(
        find_release_fact(search, other, t1).expect_err("again").code(),
        "release_fact_identity_conflict"
    );
    let search = find_release_fact(start(), done.clone(), FactQuery::Identity("t2")).expect("read");
    assert!(search.found.is_none());
    assert_eq!(
        find_release_fact(search, done.clone(), t1).expect_err("read already").code(),
        "release_recovery_cursor_invalid"
    );
    let search = find_release_fact(start(), done, FactQuery::Migration("t1")).expect("read");
    assert!(search.found.is_none());
    let twice = vec![
        release(2, ReleasePayload::Activated { transition: transition() }),
        release(3, ReleasePayload::Activated { transition: transition() }),
    ];
    assert_eq!(
        find_release_fact(start(), twice, t1).expect_err("twice").code(),
        "release_fact_identity_conflict"
    );
}

#[test]
fn an_unconfirmed_close_retains_the_owner() {
    let mut close = ResourceClose::new();
    let mut trace = Vec::new();
    let end = loop {
        trace.push(close.action);
        let reply = match close.action {
            CloseAction::ReadUnconfirmed => CloseReply::Answer(false),
            CloseAction::InspectSession => CloseReply::Answer(true),
            CloseAction::CloseInstance => CloseReply::CloseFailed { unconfirmed: true },
            _ => CloseReply::Done,
        };
        match close.advance(reply) {
            CloseProgress::Next(next) => close = next,
            CloseProgress::End(end) => break end,
        }
    };
    assert!(matches!(end, CloseEnd::CloseError));
    assert_eq!(
        trace,
        [
            CloseAction::ReadUnconfirmed,
            CloseAction::InspectSession,
            CloseAction::BeginStep,
            CloseAction::CloseInstance,
            CloseAction::AppendFailure,
            CloseAction::RetainOwner,
            CloseAction::MarkFatal,
        ]
    );
    assert!(owner_close_disposition(Ok(Some(OwnerResourceDisposition::Unconfirmed)), false).is_ok());
}

#[test]
fn a_diagnostic_stream_is_a_document_of_records() {
    let mut stream = DiagnosticStream::begin(&b"{\"v\":1}".to_vec());
    assert_eq!(stream.next_index().expect("first"), 1);
    stream.append(b"{\"i\":1}");
    stream.append(b"{\"i\":2}");
    assert_eq!(stream.next_index().expect("third"), 3);
    let text = String::from_utf8(stream.seal()).expect("text");
    assert_eq!(text, "{\"v\":1,\"records\":[\n{\"i\":1}\n,{\"i\":2}\n]}\n");
    let mut writer = RecordWriter::new(4);
    assert_eq!(writer.write(b"abc").expect("room"), 3);
    assert_eq!(writer.write(b"de").expect_err("full"), DiagnosticFailure::RecordTooLarge);
}

#[test]
fn diagnostic_steps_and_orders_are_checked() {
    let step = DiagnosticStep { index: 1, action_id: 2, started_ms: 10 };
    let elapsed = end_diagnostic_step(Some(step), 25, true).expect("elapsed").expect("a step");
    assert_eq!(elapsed.elapsed_ms, 15);
    assert_eq!(
        end_diagnostic_step(Some(step), 9, true).expect_err("clock went back"),
        DiagnosticFailure::StepClockRegressed
    );
    assert_eq!(source_order(&vec![2, 0, 1]), [(1, 0), (2, 1), (0, 2)]);
    assert_eq!(
        ocr_block_order(2, &vec![0]).expect_err("different lengths"),
        DiagnosticFailure::SourceOrderMismatch
    );
}

fn text(blocks: usize, source_order: Vec<usize>) -> TextShape {
    TextShape { blocks, source_order }
}

fn summary(plan: &RecordPlan) -> Vec<(u64, RecordKind, Option<u64>)> {
    plan.records.iter().map(|record| (record.index, record.kind, record.parent_index)).collect()
}

#[test]
fn a_page_batch_is_recorded_with_its_targets() {
    let diagnostic =
        TaskDiagnostic { step: None, physical_action_id: Some(5), frame_id: Some(6) };
    let mut plan = RecordPlan::new(10);
    let target = TargetShape { text: Some(text(2, vec![1, 0])), labels: Some(vec![4]) };
    let batch = BatchShape {
        pages: vec![PageShape { targets: vec![target] }, PageShape { targets: Vec::new() }],
        unexecuted: Some(1),
    };
    plan.add_batch(diagnostic.context(), &batch);
    assert_eq!(plan.failure, None);
    assert_eq!(
        summary(&plan),
        vec![
            (11, RecordKind::Page, None),
            (12, RecordKind::Target, Some(11)),
            (13, RecordKind::Ocr, Some(12)),
            (14, RecordKind::OcrBlock, Some(13)),
            (15, RecordKind::OcrBlock, Some(13)),
            (16, RecordKind::Nn, Some(12)),
            (17, RecordKind::NnLabel, Some(16)),
            (18, RecordKind::Page, None),
            (19, RecordKind::Error, None),
            (20, RecordKind::Unexecuted, None),
        ]
    );
    assert_eq!(plan.records[3].place.item, Some((1, 0)));
    assert_eq!(plan.records[4].place.item, Some((0, 1)));
    assert_eq!(plan.records[3].context.frame_id, Some(6));
}

#[test]
fn a_failed_record_ends_its_plan() {
    let context =
        TaskDiagnostic { step: None, physical_action_id: None, frame_id: None }.context();
    let mut plan = RecordPlan::new(0);
    let target = TargetShape { text: Some(text(2, vec![0])), labels: Some(vec![1]) };
    plan.add_guard(context, &GuardShape::Evaluated(target));
    assert_eq!(plan.failure, Some(DiagnosticFailure::SourceOrderMismatch));
    assert_eq!(
        summary(&plan),
        vec![(1, RecordKind::Target, None), (2, RecordKind::Ocr, Some(1))]
    );
    plan.add_guard(context, &GuardShape::Failed);
    assert_eq!(plan.records.len(), 2);
    let mut full = RecordPlan::new(u64::MAX);
    full.add_guard(context, &GuardShape::Skipped);
    assert_eq!(full.failure, Some(DiagnosticFailure::RecordCountOverflow));
    let mut read = RecordPlan::new(0);
    read.add_observed_text(context, &Some(text(1, vec![3])));
    read.add_observed_text(context, &None);
    assert_eq!(
        summary(&read),
        vec![
            (1, RecordKind::Ocr, None),
            (2, RecordKind::OcrBlock, Some(1)),
            (3, RecordKind::Error, None),
        ]
    );
}

#[test]
fn a_task_diagnostic_follows_the_steps_of_the_task() {
    let mut diagnostic =
        TaskDiagnostic { step: None, physical_action_id: Some(1), frame_id: None };
    let mut plan = RecordPlan::new(0);
    assert_eq!(diagnostic.begin_step(&mut plan, 1, 70, 100).expect("first"), None);
    assert_eq!(diagnostic.physical_action_id, None);
    let elapsed = diagnostic.begin_step(&mut plan, 2, 71, 130).expect("second").expect("elapsed");
    assert_eq!((elapsed.step_index, elapsed.elapsed_ms, elapsed.completed), (1, 30, false));
    assert_eq!(
        diagnostic.end_step(&mut plan, 120, true).expect_err("clock"),
        DiagnosticFailure::StepClockRegressed
    );
    diagnostic.end_step(&mut plan, 150, true).expect("end").expect("elapsed");
    assert_eq!(diagnostic.step, None);
    let events = vec![ArtifactEventShape { frame_id: Some(8), action_id: None, artifacts: 2 }];
    plan.add_artifacts(&events);
    plan.add_result(diagnostic.context());
    let kinds: Vec<RecordKind> = plan.records.iter().map(|record| record.kind).collect();
    assert_eq!(
        kinds,
        vec![
            RecordKind::StepStarted,
            RecordKind::StepElapsed,
            RecordKind::StepStarted,
            RecordKind::StepElapsed,
            RecordKind::Artifact,
            RecordKind::Artifact,
            RecordKind::Terminal,
        ]
    );
    assert_eq!(plan.records[1].context.step_action_id, Some(70));
    assert_eq!(plan.records[2].context.step_action_id, Some(71));
    assert_eq!(plan.records[4].context.frame_id, Some(8));
}

#[test]
fn the_detail_of_a_package_failure_names_error_and_instance() {
    let error = RuntimeHostError::request("adb_down", "run", RuntimeErrorCode::InvalidRequest);
    assert_eq!(
        package_failure_detail(&error, "alpha"),
        "host_code=adb_down fatal=false instance_alias=alpha"
    );
    assert_eq!(
        package_failure_detail(&error.into_fatal(), "beta"),
        "host_code=adb_down fatal=true instance_alias=beta"
    );
}
