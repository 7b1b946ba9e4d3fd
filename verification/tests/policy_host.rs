//! The policy host from its generations to its dispatches.

use runtime_host::performance::monitor::PerformanceContext;
use runtime_host::performance_control::LoadProfile;
use runtime_host::planning::FactScope;
use runtime_host::policy::activity::{sampled_interval, weekday, window_local_day};
use runtime_host::policy::cadence::{
    PolicyCadence, PolicyCadenceState, PolicyRecomputeKind, PolicyRecomputeReason, PolicyTrigger,
};
use runtime_host::policy::catalog::{
    ActivityProfile, ActivityWindow, CatalogCounts, DetectionBudget, DispatchIntent,
    DispatchPrerequisites, FailureAction, FailurePolicy, LoopBudget, PolicyCatalog, ScopeSelector,
    TaskSpec,
};
use runtime_host::policy::catalog_change::{
    check_change, migration_append_error, planning_transaction_error, prepare_transition,
    work_error, CatalogChange, CatalogIdentity, TransactionWorkError,
};
use runtime_host::policy::catalog_source::{
    load_verified_active, project_catalog_source, CatalogEvent, CatalogEventOrigin,
    CatalogEventPayload, CatalogTransition, Party, StateMigration,
};
use runtime_host::policy::control::{
    PolicyAdmissionRecord, PolicyExecutionEventData, PolicyExecutionInput, PolicyFailureClass,
};
use runtime_host::policy::cost::{policy_evaluation_cost, EvaluationInputCounts};
use runtime_host::policy::detection::PolicyPlanningSignalKind;
use runtime_host::policy::dispatch::{
    dispatch_event_data, PolicyDispatchEventData, PolicyDispatchProjectionState,
};
use runtime_host::policy::evaluation::{
    DecisionReasonChain, DetectionSuggestion, EvaluationFacts, InstanceSnapshot, PolicyDecision,
    PolicyEvaluation, PolicyReasonRecord,
};
use runtime_host::policy::execution::PolicyExecutionPreparation;
use runtime_host::policy::generation::{
    check_compiled, check_file_size, check_manifest, generation_from, generation_path, load_active,
    load_source, pointer_to, CatalogDocumentSource, CatalogGeneration, CatalogPointer,
    CatalogShelf, CatalogSources, LoadedCatalog, PointerDocument, ACTIVE_POINTER_STATE_KEY,
    CATALOG_STATE_SCHEMA,
};
use runtime_host::policy::host::{
    EvaluationStart, PolicyAdmissionContext, PolicyDispatchAdmission, PolicyHost,
};
use runtime_host::policy::planner::DetectionPlanner;
use runtime_host::policy::pointer_migration::{
    PointerAction, PointerMigration, PointerProgress, PointerReply,
};
use runtime_host::policy::recovery::{recover_dispatches, PolicyEvent, PolicyEventPayload};
use runtime_host::policy::signals::{
    detection_quota_projection_key, planning_signal_projection_key, PlanningProjections,
};
use runtime_host::policy::tracking::{
    PolicyDispatchPage, ProjectDecisionPageCursor, ProjectDecisionPageRequest,
};
use runtime_host::procedure_manifest::{ProcedureBinding, ProcedureManifest};
use runtime_host::project_interface::{
    bounded_count, project_approval, project_catalog, project_diagnostic, project_fact,
    project_goals, project_instance, retain_recent_diagnostics, ActiveCatalog,
    ApprovalDecisionRecord, ApprovalTarget, ApprovalTargetKind, ContractVersion,
    DiagnosticSeverity, FactContent, FactRecord, FitStep, GoalDeclaration, GoalProfile,
    InstanceControlStatus, MetricRef, ProjectDiagnosticProjection, ProjectFactContentState,
    ProjectFactView, ProjectGoalMetricView, ProjectInterfaceProjection, ProjectRuntimeView,
    ProjectScopeView, ResponseFit, RuntimeControlPlaneStatus,
};

const NOW: u64 = 1_699_963_200_000;

fn digest(letter: char) -> String {
    format!("sha256:{}", letter.to_string().repeat(64))
}

fn profile() -> ActivityProfile {
    ActivityProfile {
        id: "profile-a".to_owned(),
        scope: ScopeSelector::Game { game_id: "game-a".to_owned() },
        windows: vec![ActivityWindow {
            utc_offset_minutes: 0,
            weekdays: vec![1, 2, 3, 4, 5, 6, 7],
            start_minute_of_day: 0,
            end_minute_of_day: 0,
        }],
        minimum_interval_ms: 1_000,
        maximum_interval_ms: 1_000,
        daily_budget: 8,
        max_window_iterations: 8,
        session_max_ms: 900_000,
        detection_budget: DetectionBudget {
            window_dispatch_limit: 1,
            window_runtime_ms: 60_000,
            expected_duration_ms: 5_000,
        },
    }
}

fn catalog(version: u64, letter: char) -> PolicyCatalog {
    PolicyCatalog {
        catalog_id: "catalog".to_owned(),
        catalog_version: version,
        catalog_hash: digest(letter),
        approval_refs: vec!["approval-a".to_owned()],
        tasks: vec![TaskSpec {
            id: "task-a".to_owned(),
            procedure_ref: "proc.a".to_owned(),
            operation_id: "op.a".to_owned(),
            expected_duration_ms: 60_000,
            yield_points: vec!["y1".to_owned()],
            load_profile: LoadProfile::Heavy,
            scope: ScopeSelector::Instance { instance_id: "instance-a".to_owned() },
            sensitive: false,
            loop_budget: LoopBudget {
                daily_limit: 4,
                window_iteration_limit: 4,
                max_runtime_ms: 600_000,
            },
            on_failure: FailurePolicy {
                action: FailureAction::Continue,
                retry_limit: 2,
                retry_backoff_ms: 1_000,
                escalation_threshold: 3,
            },
            next_run_clamp_ms: 3_600_000,
        }],
        profiles: vec![profile()],
        counts: CatalogCounts { tasks: 1, pools: 2, activity_profiles: 1, timeline_events: 3 },
    }
}

fn sources() -> CatalogSources {
    let source = |name: &str| CatalogDocumentSource {
        source_uri: format!("memory://{name}"),
        bytes: name.as_bytes().to_vec(),
    };
    CatalogSources {
        tasks: source("tasks"),
        pools: source("pools"),
        activity: source("activity"),
        timeline: source("timeline"),
    }
}

fn loaded(version: u64, letter: char) -> LoadedCatalog {
    let compiled = catalog(version, letter);
    LoadedCatalog { generation: generation_from(&compiled, &sources()), compiled }
}

fn shelf() -> CatalogShelf {
    let mut shelf = CatalogShelf::new();
    shelf.stage(loaded(1, 'a')).expect("staged");
    shelf.stage(loaded(2, 'b')).expect("staged");
    shelf
}

fn intent(decision_id: &str) -> DispatchIntent {
    DispatchIntent {
        decision_id: decision_id.to_owned(),
        task_id: "task-a".to_owned(),
        instance_id: "instance-a".to_owned(),
        operation_id: "op.a".to_owned(),
        procedure_ref: "proc.a".to_owned(),
        package_digest: Some(digest('1')),
        procedure_binding_digest: Some(digest('2')),
        catalog_hash: digest('a'),
        catalog_version: 1,
        input_ledger_position: 5,
        fact_snapshot_id: "snapshot".to_owned(),
        approval_refs: vec!["approval-a".to_owned()],
        reason_chain_id: format!("reason:{decision_id}"),
        expected_duration_ms: 60_000,
        yield_points: vec!["y1".to_owned()],
        load_profile: LoadProfile::Heavy,
        prerequisites: DispatchPrerequisites {
            fencing_required: true,
            evaluated_at_unix_ms: NOW,
            facts_fresh_until_unix_ms: Some(NOW + 10),
            activity_profile_id: "profile-a".to_owned(),
            daily_limit: 4,
            window_iteration_limit: 4,
            max_runtime_ms: 600_000,
            urgency_milli: 100,
        },
    }
}

fn reasons(decision_id: &str) -> DecisionReasonChain {
    DecisionReasonChain {
        id: format!("reason:{decision_id}"),
        decision_id: decision_id.to_owned(),
        reasons: vec![PolicyReasonRecord { code: "due".to_owned(), detail: "now".to_owned() }],
    }
}

fn dispatch(decision_id: &str) -> PolicyDispatchEventData {
    dispatch_event_data(&intent(decision_id), &reasons(decision_id)).expect("bound")
}

fn open(events: &Vec<PolicyEvent>) -> PolicyHost {
    PolicyHost::open(
        shelf(),
        Some(PointerDocument {
            schema_version: CATALOG_STATE_SCHEMA.to_owned(),
            pointer: Some(pointer_to(&loaded(1, 'a').generation)),
        }),
        PolicyCadence::default(),
        events,
        16,
        PlanningProjections::new(),
        100,
        &Vec::new(),
    )
    .expect("host")
}

fn event(sequence: u64, payload: PolicyEventPayload) -> PolicyEvent {
    PolicyEvent { sequence, payload }
}

fn admission(decision_id: &str, at: u64) -> PolicyAdmissionRecord {
    open(&Vec::new()).preview_admission(&intent(decision_id), at).expect("admission")
}

fn execution(events: &Vec<PolicyEvent>, decision_id: &str, at: u64) -> PolicyExecutionEventData {
    match open(events)
        .prepare_execution(
            &decision_id.to_owned(),
            at,
            &PolicyExecutionInput::Succeeded,
            &PerformanceContext::unavailable(at),
        )
        .expect("prepared")
    {
        PolicyExecutionPreparation::New(data) => data,
        PolicyExecutionPreparation::Replay(_) => panic!("nothing was recorded yet"),
    }
}

fn admitted() -> Vec<PolicyEvent> {
    vec![
        event(
            11,
            PolicyEventPayload::DispatchAdmitted {
                data: dispatch("d1"),
                admission: Some(admission("d1", NOW)),
            },
        ),
        event(10, PolicyEventPayload::DispatchIntent { data: dispatch("d1") }),
        event(12, PolicyEventPayload::DispatchIntent { data: dispatch("d2") }),
        event(13, PolicyEventPayload::DispatchRejected { data: dispatch("d2") }),
        event(14, PolicyEventPayload::DispatchIntent { data: dispatch("d3") }),
    ]
}

fn with_execution() -> Vec<PolicyEvent> {
    let mut events = admitted();
    let data = execution(&events, "d1", NOW + 30_000);
    events.push(event(15, PolicyEventPayload::ExecutionRecorded { data }));
    events
}

#[test]
fn dispatches_are_rebuilt_from_events_in_any_order() {
    let host = open(&admitted());
    assert_eq!(host.admitted_at(&"d1".to_owned()).expect("admitted"), NOW);
    assert_eq!(
        host.admitted_at(&"d3".to_owned()).expect_err("not admitted").code(),
        "policy_dispatch_admission_missing"
    );
    let pending = host.pending_dispatches();
    assert_eq!(pending.len(), 1);
    assert_eq!(pending[0].data.decision_id, "d3");
    assert_eq!(
        host.recovered_dispatch_clocks().expect("clocks"),
        [("d1".to_owned(), NOW)]
    );
    assert!(host.pinned_catalog(&"d1".to_owned()).is_some());
    assert!(host.pinned_catalog(&"d2".to_owned()).is_none());
    assert_eq!(host.execution_instance_id(&"d1".to_owned()).expect("known"), "instance-a");
    assert!(host.dispatch_needs_completion(&"d1".to_owned()).expect("admitted"));
    assert_eq!(
        host.dispatch_needs_completion(&"d2".to_owned()).expect_err("rejected").code(),
        "policy_dispatch_not_admitted"
    );
    let workloads = host.active_performance_workloads().expect("workloads");
    assert_eq!(workloads.len(), 1);
    assert_eq!(workloads[0].instance_id, "instance-a");
    assert_eq!(workloads[0].load_profile, LoadProfile::Heavy);
}

#[test]
fn a_dispatch_completes_after_its_execution() {
    let mut host = open(&with_execution());
    let id = "d1".to_owned();
    let (data, kept) = host.completion_data(&id).expect("completion");
    assert_eq!(data, dispatch("d1"));
    assert_eq!(kept, admission("d1", NOW));
    let replayed = host
        .replay_execution(&id, &PolicyExecutionInput::Succeeded)
        .expect("same report")
        .expect("recorded");
    assert_eq!(replayed.observed_at_unix_ms, NOW + 30_000);
    let failed = PolicyExecutionInput::Failed {
        error_code: "x".to_owned(),
        class: PolicyFailureClass::Severe,
    };
    assert_eq!(
        host.replay_execution(&id, &failed).err().expect("other report").code(),
        "policy_execution_identity_conflict"
    );
    assert_eq!(
        host.commit_execution(&replayed).expect_err("twice").code(),
        "policy_execution_duplicate"
    );
    let mut events = with_execution();
    events.push(event(
        16,
        PolicyEventPayload::DispatchCompleted {
            data: dispatch("d1"),
            admission: Some(admission("d1", NOW)),
        },
    ));
    host.refresh_dispatches(&events).expect("refreshed");
    assert!(!host.dispatch_needs_completion(&id).expect("completed"));
    assert_eq!(
        host.completion_data(&id).err().expect("not pinned").code(),
        "policy_dispatch_not_pinned"
    );
    assert_eq!(
        host.complete_dispatch(&id).expect_err("not pinned").code(),
        "policy_dispatch_not_pinned"
    );
    host.complete_dispatch(&"d3".to_owned()).expect("pinned");
}

#[test]
fn a_ledger_that_contradicts_itself_is_not_replayed() {
    let refused = |extra: PolicyEvent| {
        let mut events = admitted();
        events.push(extra);
        recover_dispatches(&shelf(), &events).err().expect("refused").code()
    };
    assert_eq!(
        refused(event(20, PolicyEventPayload::DispatchIntent { data: dispatch("d1") })),
        "policy_decision_identity_conflict"
    );
    assert_eq!(
        refused(event(14, PolicyEventPayload::DispatchIntent { data: dispatch("d9") })),
        "policy_dispatch_sequence_conflict"
    );
    assert_eq!(
        refused(event(20, PolicyEventPayload::DispatchRejected { data: dispatch("d9") })),
        "policy_dispatch_intent_missing"
    );
    assert_eq!(
        refused(event(20, PolicyEventPayload::DispatchRejected { data: dispatch("d1") })),
        "policy_dispatch_lifecycle_invalid"
    );
    assert_eq!(
        refused(event(
            20,
            PolicyEventPayload::DispatchAdmitted { data: dispatch("d3"), admission: None }
        )),
        "policy_dispatch_admission_missing"
    );
    assert_eq!(
        refused(event(
            20,
            PolicyEventPayload::DispatchCompleted {
                data: dispatch("d1"),
                admission: Some(admission("d1", NOW)),
            }
        )),
        "policy_dispatch_completion_incomplete"
    );
    assert_eq!(
        refused(event(20, PolicyEventPayload::PlanningSignalObserved)),
        "policy_recovery_query_mismatch"
    );
    let mut unbound = dispatch("d9");
    unbound.package_digest = "none".to_owned();
    assert_eq!(
        refused(event(20, PolicyEventPayload::DispatchIntent { data: unbound })),
        "procedure_binding_event_invalid"
    );
    let mut unknown = dispatch("d9");
    unknown.catalog_hash = digest('f');
    assert_eq!(
        refused(event(20, PolicyEventPayload::DispatchIntent { data: unknown })),
        "catalog_file_unavailable"
    );
}

#[test]
fn executions_are_prepared_for_admitted_dispatches_only() {
    let host = open(&admitted());
    let code = |id: &str| {
        host.prepare_execution(
            &id.to_owned(),
            NOW + 1,
            &PolicyExecutionInput::Succeeded,
            &PerformanceContext::unavailable(NOW),
        )
        .err()
        .map(|error| error.code())
    };
    assert_eq!(code("d9"), Some("policy_dispatch_unknown"));
    assert_eq!(code("d3"), Some("policy_dispatch_not_admitted"));
    assert_eq!(code("d1"), None);
    let data = execution(&admitted(), "d1", NOW + 30_000);
    let mut host = open(&admitted());
    host.commit_execution(&data).expect("counted");
    assert!(matches!(
        host.prepare_execution(
            &"d1".to_owned(),
            NOW + 99,
            &PolicyExecutionInput::Succeeded,
            &PerformanceContext::unavailable(NOW)
        ),
        Ok(PolicyExecutionPreparation::Replay(_))
    ));
}

fn context() -> PolicyAdmissionContext {
    PolicyAdmissionContext {
        fact_ledger_position: 5,
        fact_snapshot_id: "snapshot".to_owned(),
        approval_fact_ids: vec!["approval-a".to_owned()],
        fencing_owner_epoch: 7,
        now_unix_ms: NOW,
    }
}

#[test]
fn a_dispatch_is_checked_against_catalog_reasons_and_state() {
    let host = open(&Vec::new());
    let code = |change: &dyn Fn(&mut DispatchIntent, &mut PolicyAdmissionContext)| {
        let mut intent = intent("d1");
        let mut context = context();
        change(&mut intent, &mut context);
        host.validate_dispatch(&intent, &reasons("d1"), &context, 7, 9)
            .err()
            .map(|error| error.code())
    };
    assert_eq!(code(&|_, _| {}), None);
    assert_eq!(code(&|intent, _| intent.catalog_version = 2), Some("policy_catalog_mismatch"));
    assert_eq!(
        code(&|intent, _| intent.task_id = "x".to_owned()),
        Some("policy_task_missing")
    );
    assert_eq!(
        code(&|intent, _| intent.prerequisites.urgency_milli = 1_001),
        Some("policy_intent_catalog_mismatch")
    );
    assert_eq!(
        code(&|intent, _| intent.instance_id = "instance-b".to_owned()),
        Some("policy_intent_catalog_mismatch")
    );
    assert_eq!(
        code(&|_, context| context.fact_ledger_position = 6),
        Some("policy_fact_position_mismatch")
    );
    assert_eq!(
        code(&|intent, _| intent.decision_id = "d2".to_owned()),
        Some("policy_reason_chain_mismatch")
    );
    assert_eq!(
        code(&|_, context| context.approval_fact_ids.clear()),
        Some("policy_approval_fact_missing")
    );
    assert_eq!(
        code(&|_, context| context.fencing_owner_epoch = 8),
        Some("policy_fencing_mismatch")
    );
    assert_eq!(
        code(&|_, context| context.now_unix_ms = NOW + 11),
        Some("policy_facts_stale")
    );
}

#[test]
fn a_decision_is_dispatched_once() {
    let mut host = open(&admitted());
    assert!(host.replay_admission(&intent("d9"), &reasons("d9")).expect("new").is_none());
    match host.replay_admission(&intent("d1"), &reasons("d1")).expect("seen").expect("answer") {
        PolicyDispatchAdmission::ReplaySuppressed { original_intent_sequence, .. } => {
            assert_eq!(original_intent_sequence, 10);
        }
        PolicyDispatchAdmission::Granted { .. } => panic!("not again"),
    }
    let mut other = intent("d1");
    other.operation_id = "op.b".to_owned();
    assert_eq!(
        host.replay_admission(&other, &reasons("d1")).err().expect("other dispatch").code(),
        "policy_decision_identity_conflict"
    );
    let next = NOW + 60_000;
    let admission = host.preview_admission(&intent("d3"), next).expect("admission");
    assert_eq!(admission.budget.task_daily_used, 2);
    host.commit_admission(&intent("d3"), &admission).expect("charged");
    assert_eq!(
        host.commit_admission(&intent("d3"), &admission).expect_err("again").code(),
        "policy_activity_interval_active"
    );
}

fn page(host: &PolicyHost, limit: u16, cursor: Option<ProjectDecisionPageCursor>) -> PolicyDispatchPage {
    host.project_dispatches(20, Some(&ProjectDecisionPageRequest { limit, cursor })).expect("page")
}

#[test]
fn pages_of_decisions_follow_each_other() {
    let host = open(&admitted());
    let first = page(&host, 2, None);
    let ids = |page: &PolicyDispatchPage| {
        page.dispatches.iter().map(|shown| shown.data.decision_id.clone()).collect::<Vec<_>>()
    };
    assert_eq!(ids(&first), ["d3", "d2"]);
    assert!(first.has_more);
    assert_eq!(first.dispatches[1].state, PolicyDispatchProjectionState::Rejected);
    let cursor = ProjectDecisionPageCursor {
        snapshot_ledger_position: 20,
        before_intent_sequence: 12,
        before_decision_id: "d2".to_owned(),
    };
    let second = page(&host, 2, Some(cursor.clone()));
    assert_eq!(ids(&second), ["d1"]);
    assert!(!second.has_more);
    let old = page(
        &host,
        2,
        Some(ProjectDecisionPageCursor { snapshot_ledger_position: 10, ..cursor.clone() }),
    );
    assert_eq!(old.dispatches[0].state, PolicyDispatchProjectionState::Intent);
    let code = |position: u64, request: Option<ProjectDecisionPageRequest>| {
        host.project_dispatches(position, request.as_ref()).err().map(|error| error.code())
    };
    assert_eq!(code(20, None), Some("project_decision_page_invalid"));
    assert_eq!(
        code(0, Some(ProjectDecisionPageRequest { limit: 1, cursor: None })),
        Some("project_decision_cursor_invalid")
    );
    let unknown = ProjectDecisionPageCursor { before_decision_id: "d9".to_owned(), ..cursor };
    assert_eq!(
        code(20, Some(ProjectDecisionPageRequest { limit: 1, cursor: Some(unknown) })),
        Some("project_decision_cursor_invalid")
    );
}

#[test]
fn a_response_loses_decisions_until_it_fits() {
    let host = open(&admitted());
    let whole = page(&host, 5, None);
    let mut fit = ResponseFit::begin(ContractVersion::V2, &whole).expect("begin");
    assert!(fit.decision_page().expect("page").expect("pages").next_cursor.is_none());
    assert_eq!(
        fit.response_made(Some("project_interface_response_too_large")).expect("smaller"),
        FitStep::TryAgain
    );
    let shown = fit.decision_page().expect("page").expect("pages");
    assert_eq!(shown.returned, 2);
    assert_eq!(shown.next_cursor.expect("more").before_decision_id, "d2");
    assert_eq!(fit.response_made(None).expect("fits"), FitStep::Send);
    fit.response_made(Some("project_interface_response_too_large")).expect("smaller");
    assert_eq!(
        fit.response_made(Some("project_interface_response_too_large"))
            .expect_err("the last one stays")
            .code(),
        "project_interface_response_too_large"
    );
    let mut old = ResponseFit::begin(ContractVersion::V1, &whole).expect("begin");
    assert!(old.decision_page().expect("no pages").is_none());
    assert_eq!(
        old.response_made(Some("project_interface_response_too_large")).expect_err("v1").code(),
        "project_interface_v1_requires_v2"
    );
    assert!(old.response_made(Some("other")).expect_err("broken").is_fatal());
    assert_eq!(
        ResponseFit::begin(ContractVersion::V1, &page(&host, 1, None))
            .err()
            .expect("needs pages")
            .code(),
        "project_interface_v1_requires_v2"
    );
}

#[test]
fn a_snapshot_shows_goals_in_order_and_bounded_lists() {
    let goal = |id: &str| GoalDeclaration {
        id: id.to_owned(),
        metric: MetricRef::Pool { pool_id: "p".to_owned() },
        target: 7,
        deadline_unix_ms: 90,
        strategic_weight_milli: 500,
        best_effort: true,
    };
    let profile = |id: &str, goals: Vec<GoalDeclaration>| GoalProfile {
        id: id.to_owned(),
        scope: ScopeSelector::Game { game_id: "g".to_owned() },
        goals,
    };
    let profiles =
        vec![profile("b", vec![goal("2"), goal("1")]), profile("a", vec![goal("3")])];
    let goals = project_goals(&profiles);
    assert_eq!(goals[0].scope, ProjectScopeView::Game { game_id: "g".to_owned() });
    assert_eq!(goals[0].metric, ProjectGoalMetricView::Pool { pool_id: "p".to_owned() });
    assert_eq!((goals[0].target, goals[0].deadline_unix_ms), (7, 90));
    assert_eq!((goals[0].strategic_weight_milli, goals[0].best_effort), (500, true));
    assert_eq!(
        goals.iter().map(|goal| goal.goal_id.as_str()).collect::<Vec<_>>(),
        ["3", "1", "2"]
    );
    let recent = retain_recent_diagnostics((0..300).collect::<Vec<u32>>());
    assert_eq!(recent.len(), 256);
    assert_eq!(recent[0], 44);
    assert_eq!(bounded_count(5).expect("small"), 5);
    let made = loaded(1, 'a');
    let shown = project_catalog(&made.generation, &made.compiled.counts, &profiles).expect("shown");
    assert_eq!(shown.goal_count, 3);
    assert_eq!(shown.activity_profile_count, 2);
    assert_eq!(shown.timeline_event_count, 3);
}

#[test]
fn a_snapshot_shows_facts_without_their_contents() {
    let fact = FactRecord {
        scope: FactScope::Server { server_id: "s".to_owned() },
        key: "gold".to_owned(),
        content: FactContent::Inline { value: "120".to_owned() },
        observed_at_unix_ms: 5,
        expires_at_unix_ms: 9,
        confidence_milli: 900,
        source_snapshot_id: "snapshot".to_owned(),
        schema_version: 2,
        resource_bundle_hash: "hash".to_owned(),
    };
    let shown = project_fact(&fact);
    assert_eq!(
        shown,
        ProjectFactView {
            scope: ProjectScopeView::Server { server_id: "s".to_owned() },
            key: "gold".to_owned(),
            content_state: ProjectFactContentState::InlineRedacted,
            observed_at_unix_ms: 5,
            expires_at_unix_ms: 9,
            confidence_milli: 900,
            source_snapshot_id: "snapshot".to_owned(),
            fact_schema_version: 2,
            resource_bundle_hash: "hash".to_owned(),
        }
    );
    let other = FactRecord {
        content: FactContent::Inline { value: "7".to_owned() },
        ..fact.clone()
    };
    assert_eq!(project_fact(&other), shown);
    let artifact = FactRecord {
        content: FactContent::Artifact { reference: "a".to_owned() },
        ..fact
    };
    assert_eq!(
        project_fact(&artifact).content_state,
        ProjectFactContentState::ArtifactRedacted
    );
}

#[test]
fn a_snapshot_shows_approvals_diagnostics_and_instances() {
    let approval = |target: ApprovalTarget| {
        project_approval(&ApprovalDecisionRecord {
            approval_id: "a1".to_owned(),
            disposition: "approved".to_owned(),
            target,
        })
    };
    let shown = approval(ApprovalTarget::Plan {
        plan_id: "p1".to_owned(),
        catalog_hash: "h".to_owned(),
        catalog_version: 3,
    });
    assert_eq!(shown.target_kind, ApprovalTargetKind::Plan);
    assert_eq!(shown.target_id.as_deref(), Some("p1"));
    assert_eq!((shown.catalog_hash.as_str(), shown.catalog_version), ("h", 3));
    assert_eq!((shown.approval_id.as_str(), shown.disposition.as_str()), ("a1", "approved"));
    let shown = approval(ApprovalTarget::Catalog {
        catalog_hash: "h".to_owned(),
        catalog_version: 3,
    });
    assert_eq!((shown.target_kind, shown.target_id), (ApprovalTargetKind::Catalog, None));
    let shown = approval(ApprovalTarget::Decision {
        decision_id: "d1".to_owned(),
        catalog_hash: "h".to_owned(),
        catalog_version: 3,
    });
    assert_eq!(shown.target_kind, ApprovalTargetKind::Decision);
    assert_eq!(shown.target_id.as_deref(), Some("d1"));

    let diagnostic = |severity: DiagnosticSeverity| {
        project_diagnostic(&ProjectDiagnosticProjection {
            sequence: 4,
            timestamp_unix_ms: 8,
            severity,
            event_type: "runtime.fatal".to_owned(),
        })
    };
    assert!(diagnostic(DiagnosticSeverity::Fatal).fatal);
    let shown = diagnostic(DiagnosticSeverity::Other(3));
    assert!(!shown.fatal);
    assert_eq!((shown.sequence, shown.timestamp_unix_ms, shown.code), (4, 8, None));

    let instance = control_instance();
    let shown = project_instance(&instance);
    assert_eq!((shown.instance_alias.as_str(), shown.instance_id), ("alpha", 6));
    assert!(shown.lease_active && !shown.takeover_cooldown_active);
    assert!(!shown.destructive_step_active && shown.preempt_requested);
    assert_eq!(shown.queued_request_count, 2);
}

fn control_instance() -> InstanceControlStatus {
    InstanceControlStatus {
        instance_alias: "alpha".to_owned(),
        instance_id: 6,
        lease_active: true,
        queued_request_count: 2,
        takeover_cooldown_active: false,
        destructive_step_active: false,
        preempt_requested: true,
    }
}

#[test]
fn a_snapshot_is_made_under_the_agreed_contract() {
    let projection = |has_more: bool, with_catalog: bool| {
        let made = loaded(1, 'a');
        ProjectInterfaceProjection {
            ledger_position: 12,
            catalog: if with_catalog {
                Some(ActiveCatalog {
                    generation: made.generation,
                    counts: made.compiled.counts,
                    profiles: Vec::new(),
                })
            } else {
                None
            },
            instances: RuntimeControlPlaneStatus {
                owner_epoch: 9,
                instances: vec![control_instance()],
            },
            facts: Vec::new(),
            decisions: PolicyDispatchPage {
                dispatches: Vec::new(),
                snapshot_ledger_position: 11,
                requested_limit: 5,
                has_more,
            },
            approvals: Vec::new(),
            diagnostics: Vec::new(),
            fatal: true,
        }
    };
    let response =
        projection(false, true).into_response(Ok(ContractVersion::V2)).expect("response");
    assert_eq!(response.ledger_position, 12);
    assert_eq!(response.project.expect("project").project_id, "catalog");
    assert_eq!(response.catalog.expect("catalog").catalog_version, 1);
    assert_eq!(response.instances.len(), 1);
    assert_eq!(
        response.runtime,
        ProjectRuntimeView { owner_epoch: 9, ledger_position: 12, fatal: true, instance_count: 1 }
    );
    assert_eq!(response.fit.requested_limit, 5);
    let refused = projection(false, true)
        .into_response(Err("no_common_version"))
        .expect_err("no contract");
    assert_eq!((refused.code(), refused.operation()), (
        "no_common_version",
        "negotiate_project_interface"
    ));
    assert_eq!(
        projection(true, true)
            .into_response(Ok(ContractVersion::V1))
            .expect_err("needs pages")
            .code(),
        "project_interface_v1_requires_v2"
    );
    let response =
        projection(true, false).into_response(Ok(ContractVersion::V2)).expect("response");
    assert!(response.project.is_none() && response.catalog.is_none() && response.goals.is_empty());
    assert_eq!(
        response.fit.decision_page().expect_err("nothing left").code(),
        "project_interface_response_too_large"
    );
}

#[test]
fn a_generation_is_used_only_as_it_was_made() {
    let made = loaded(1, 'a').generation;
    assert_eq!(made.catalog_id(), "catalog");
    assert_eq!(made.catalog_version(), 1);
    assert_eq!(made.catalog_hash(), digest('a'));
    assert_eq!(
        made.sources[0].sha256,
        "sha256:085154084c7427596104bc42f51f59f6d3ffd3d5f49f098210c20449fb7b2c71"
    );
    assert_eq!(generation_path(&digest('a')).expect("path"), "a".repeat(64));
    assert_eq!(generation_path("sha256:ab").expect_err("short").code(), "catalog_hash_invalid");
    assert_eq!(
        check_manifest(&digest('b'), Some(made.clone())).expect_err("other").code(),
        "catalog_generation_identity_mismatch"
    );
    assert_eq!(
        check_manifest(&digest('a'), None).expect_err("broken").code(),
        "catalog_manifest_invalid"
    );
    let bytes = load_source(&made, "tasks", Ok(b"tasks".to_vec())).expect("same bytes");
    assert_eq!(bytes.source_uri, "memory://tasks");
    assert_eq!(
        load_source(&made, "tasks", Ok(b"changed".to_vec())).expect_err("changed").code(),
        "catalog_source_hash_mismatch"
    );
    assert_eq!(
        load_source(&made, "notes", Ok(Vec::new())).expect_err("unknown").code(),
        "catalog_source_missing"
    );
    assert_eq!(check_file_size(2, 1).expect_err("long").code(), "catalog_file_too_large");
    assert_eq!(
        check_compiled(made.clone(), None).err().expect("broken").code(),
        "catalog_generation_invalid"
    );
    assert_eq!(
        check_compiled(made, Some(catalog(2, 'a'))).err().expect("other version").code(),
        "catalog_generation_content_mismatch"
    );
}

#[test]
fn the_active_generation_is_the_one_the_pointer_names() {
    let shelf = shelf();
    let document = |schema: &str, pointer: Option<CatalogPointer>| {
        Some(PointerDocument { schema_version: schema.to_owned(), pointer })
    };
    assert!(load_active(&None, &shelf).expect("none").is_none());
    let good = pointer_to(&loaded(2, 'b').generation);
    assert_eq!(
        load_active(&document(CATALOG_STATE_SCHEMA, Some(good.clone())), &shelf)
            .expect("active")
            .expect("some")
            .generation
            .catalog_version,
        2
    );
    let code = |document: Option<PointerDocument>| {
        load_active(&document, &shelf).err().map(|error| error.code())
    };
    assert_eq!(
        code(document("old", Some(good.clone()))),
        Some("catalog_pointer_version_unsupported")
    );
    assert_eq!(code(document(CATALOG_STATE_SCHEMA, None)), Some("catalog_pointer_invalid"));
    let mut other = good;
    other.generation.sources.clear();
    assert_eq!(
        code(document(CATALOG_STATE_SCHEMA, Some(other))),
        Some("catalog_pointer_generation_mismatch")
    );
    let mut host = open(&Vec::new());
    assert_eq!(
        host.switch_active(&digest('b'), None).expect_err("unexpected").code(),
        "catalog_active_generation_changed"
    );
    host.switch_active(&digest('b'), Some(&digest('a'))).expect("switched");
    assert_eq!(host.active_generation().expect("active").catalog_version, 2);
    assert!(host.cadence.full_recompute_required);
    let activations = vec![CatalogIdentity {
        catalog_id: "catalog".to_owned(),
        catalog_version: 1,
        catalog_hash: digest('a'),
    }];
    assert_eq!(
        host.active_loaded_at(9, 5, &activations)
            .expect("projected")
            .expect("some")
            .generation
            .catalog_version,
        1
    );
    assert_eq!(
        host.active_loaded_at(9, 10, &activations).err().expect("ahead").code(),
        "catalog_projection_position_invalid"
    );
}

fn transition(version: u64, letter: char, previous: Option<char>) -> CatalogTransition {
    CatalogTransition {
        catalog_id: "catalog".to_owned(),
        catalog_version: version,
        catalog_hash: digest(letter),
        previous_catalog_hash: previous.map(digest),
        promotion: None,
    }
}

fn catalog_event(module: Party, action: &str, payload: CatalogEventPayload) -> CatalogEvent {
    CatalogEvent {
        origin: CatalogEventOrigin { source: Party::Runtime, module, actor: Party::Runtime },
        action_id: Some(action.to_owned()),
        links: format!("links:{action}"),
        action: "transition".to_owned(),
        payload,
    }
}

fn change(action: &str, made: CatalogTransition, rollback: bool) -> Vec<CatalogEvent> {
    let outcome = if rollback {
        CatalogEventPayload::RolledBack { transition: made.clone() }
    } else {
        CatalogEventPayload::Activated { transition: made.clone() }
    };
    vec![
        catalog_event(
            Party::Policy,
            action,
            CatalogEventPayload::TransitionIntent { transition: made },
        ),
        catalog_event(Party::Policy, action, outcome),
    ]
}

#[test]
fn the_ledger_leads_from_generation_to_generation() {
    let shelf = shelf();
    let mut events = change("1", transition(1, 'a', None), false);
    events.extend(change("2", transition(2, 'b', Some('a')), false));
    events.extend(change("3", transition(1, 'a', Some('b')), true));
    let active = project_catalog_source(&shelf, &events).expect("projected");
    assert_eq!(active.expect("some").generation.catalog_version, 1);
    let code = |events: Vec<CatalogEvent>| {
        project_catalog_source(&shelf, &events).err().map(|error| error.code())
    };
    assert_eq!(
        code(change("1", transition(1, 'a', None), true)),
        Some("catalog_rollback_source_missing")
    );
    assert_eq!(
        code(change("1", transition(1, 'a', Some('b')), false)),
        Some("catalog_previous_source_mismatch")
    );
    let mut backwards = change("1", transition(2, 'b', None), false);
    backwards.extend(change("2", transition(1, 'a', Some('b')), false));
    assert_eq!(code(backwards), Some("catalog_generation_source_conflict"));
    let mut twice = change("1", transition(1, 'a', None), false);
    let outcome = catalog_event(
        Party::Policy,
        "1",
        CatalogEventPayload::Activated { transition: transition(1, 'a', None) },
    );
    twice.push(outcome);
    assert_eq!(code(twice), Some("catalog_outcome_intent_missing"));
    let mut other = change("1", transition(1, 'a', None), false);
    other[1].links = "links:other".to_owned();
    assert_eq!(code(other), Some("catalog_outcome_source_conflict"));
    let mut anonymous = change("1", transition(1, 'a', None), false);
    anonymous[0].action_id = None;
    assert_eq!(code(anonymous), Some("catalog_intent_identity_missing"));
    let verified = load_verified_active(
        project_catalog_source(&shelf, &events),
        shelf.load_generation(&digest('b')).map(Some),
    );
    assert_eq!(verified.err().expect("disagree").code(), "catalog_active_source_mismatch");
}

fn migration() -> StateMigration {
    StateMigration {
        migration_id: "m1".to_owned(),
        state_key: ACTIVE_POINTER_STATE_KEY.to_owned(),
        to_schema_version: CATALOG_STATE_SCHEMA.to_owned(),
        remainder: String::new(),
    }
}

fn pointer_reply(action: PointerAction) -> PointerReply {
    match action {
        PointerAction::FindFile => PointerReply::Exists(true),
        PointerAction::ReadFile => PointerReply::File(Some(pointer_to(&loaded(1, 'a').generation))),
        PointerAction::LoadGeneration => PointerReply::Loaded(loaded(1, 'a').generation),
        PointerAction::Encode => PointerReply::Encoded(Some(vec![1, 2])),
        PointerAction::ReadSource => PointerReply::Source(None),
        PointerAction::Prepare => PointerReply::Prepared(Some(migration())),
        PointerAction::ReadRecorded => PointerReply::Recorded(Vec::new()),
        PointerAction::ReadDocument => PointerReply::Document(vec![1, 2]),
        _ => PointerReply::Done,
    }
}

fn migrate(
    with_ledger: bool,
    at: impl Fn(PointerAction) -> Option<PointerReply>,
) -> (Vec<PointerAction>, Result<(), &'static str>) {
    let mut run = PointerMigration::new(with_ledger);
    let mut trace = Vec::new();
    loop {
        let action = run.action;
        trace.push(action);
        let reply = match at(action) {
            Some(reply) => reply,
            None => pointer_reply(action),
        };
        match run.advance(reply) {
            PointerProgress::Next(next) => run = next,
            PointerProgress::End(end) => return (trace, end.map_err(|error| error.code())),
        }
    }
}

#[test]
fn the_pointer_file_is_migrated_once() {
    let pointer = || Some(pointer_to(&loaded(1, 'a').generation));
    let (trace, end) = migrate(true, |_| None);
    assert_eq!(end, Ok(()));
    assert_eq!(
        trace,
        [
            PointerAction::FindFile,
            PointerAction::ReadFile,
            PointerAction::LoadGeneration,
            PointerAction::Encode,
            PointerAction::ReadSource,
            PointerAction::Prepare,
            PointerAction::ReadRecorded,
            PointerAction::Append,
            PointerAction::ReadDocument,
            PointerAction::VerifyActive,
            PointerAction::RemoveFile,
            PointerAction::SyncDirectory,
        ]
    );
    let recorded = |migrations: fn() -> Vec<StateMigration>| {
        migrate(true, move |action| match action {
            PointerAction::ReadRecorded => Some(PointerReply::Recorded(migrations())),
            _ => None,
        })
    };
    let (trace, end) = recorded(|| vec![migration()]);
    assert_eq!(end, Ok(()));
    assert!(!trace.contains(&PointerAction::Append));
    assert_eq!(
        recorded(|| vec![migration(), migration()]).1,
        Err("catalog_migration_source_conflict")
    );
    assert_eq!(
        recorded(|| vec![StateMigration { remainder: "x".to_owned(), ..migration() }]).1,
        Err("catalog_migration_source_conflict")
    );
    let (trace, end) = migrate(true, |action| match action {
        PointerAction::FindFile => Some(PointerReply::Exists(false)),
        _ => None,
    });
    assert_eq!((trace.len(), end), (1, Ok(())));
    let (trace, end) = migrate(false, |_| None);
    assert_eq!(end, Ok(()));
    assert_eq!(
        trace[4..],
        [PointerAction::Migrate, PointerAction::RemoveFile, PointerAction::SyncDirectory]
    );
    let migrated = CatalogEventPayload::Migrated {
        migration: migration(),
        document: Ok(pointer()),
    };
    let events = vec![catalog_event(Party::Runtime, "m", migrated)];
    assert_eq!(
        project_catalog_source(&shelf(), &events)
            .expect("projected")
            .expect("some")
            .generation
            .catalog_version,
        1
    );
}

#[test]
fn the_pointer_file_stays_where_its_migration_fails() {
    let refused = |wanted: PointerAction, reply: fn() -> PointerReply| {
        let (trace, end) = migrate(true, move |action| {
            if action == wanted {
                Some(reply())
            } else {
                None
            }
        });
        assert_eq!(trace.last(), Some(&wanted));
        end.expect_err("refused")
    };
    assert_eq!(
        refused(PointerAction::ReadFile, || PointerReply::File(None)),
        "catalog_pointer_invalid"
    );
    assert_eq!(
        refused(PointerAction::ReadFile, || {
            let mut pointer = pointer_to(&loaded(1, 'a').generation);
            pointer.schema_version = "other".to_owned();
            PointerReply::File(Some(pointer))
        }),
        "catalog_pointer_version_unsupported"
    );
    assert_eq!(
        refused(PointerAction::LoadGeneration, || {
            PointerReply::Loaded(loaded(1, 'b').generation)
        }),
        "catalog_pointer_generation_mismatch"
    );
    assert_eq!(
        refused(PointerAction::Encode, || PointerReply::Encoded(None)),
        "catalog_pointer_encode_failed"
    );
    assert_eq!(
        refused(PointerAction::ReadSource, || {
            PointerReply::Source(Some(loaded(1, 'b').generation))
        }),
        "catalog_migration_source_conflict"
    );
    assert_eq!(
        refused(PointerAction::Prepare, || PointerReply::Prepared(None)),
        "catalog_migration_missing"
    );
    assert_eq!(
        refused(PointerAction::Append, || PointerReply::NotAppended {
            work: None,
            code: "ledger_full",
            operation: "append",
            detail: "full".to_owned(),
        }),
        "ledger_full"
    );
    assert_eq!(
        refused(PointerAction::ReadDocument, || PointerReply::Document(vec![1])),
        "catalog_migration_source_conflict"
    );
    assert_eq!(
        refused(PointerAction::RemoveFile, || PointerReply::NotRemoved {
            detail: "busy".to_owned(),
        }),
        "catalog_pointer_cleanup_failed"
    );
}

#[test]
fn a_change_is_applied_with_the_event_that_tells_of_it() {
    let generation = loaded(1, 'a').generation;
    let telling = catalog_event(
        Party::Policy,
        "1",
        CatalogEventPayload::Activated { transition: transition(1, 'a', None) },
    );
    let change = |current_matches: bool, previous: Option<String>| CatalogChange::Transition {
        generation: loaded(1, 'a').generation,
        previous,
        current_matches,
    };
    check_change(&change(true, None), Ok(()), &telling).expect("applied");
    assert_eq!(
        check_change(&change(false, None), Ok(()), &telling).expect_err("changed").code(),
        "catalog_active_generation_changed"
    );
    assert_eq!(
        check_change(&change(true, Some(digest('b'))), Ok(()), &telling)
            .expect_err("other")
            .code(),
        "catalog_transaction_fact_mismatch"
    );
    assert_eq!(
        prepare_transition(&generation, Ok(None), Some("x")).expect_err("changed").code(),
        "state_document_changed"
    );
    assert_eq!(
        prepare_transition(&generation, Ok(None), None).expect("pointer").generation,
        generation
    );
    let work = work_error(check_change(&change(false, None), Ok(()), &telling).expect_err("x"));
    assert!(!work.fatal);
    let planned = planning_transaction_error(Some(work), "c", "o", "stale".to_owned());
    assert!(!planned.is_fatal());
    assert_eq!(planned.native_detail.as_deref(), Some("rollback=confirmed; stale"));
    let moved = migration_append_error(Some(work), "c", "o", "stale".to_owned());
    assert!(moved.is_fatal());
    assert_eq!(moved.native_detail.as_deref(), Some("stale"));
    let none: Option<TransactionWorkError> = None;
    let failed = planning_transaction_error(none, "c", "o", "disk".to_owned());
    assert_eq!(failed.code(), "c");
    assert_eq!(failed.native_detail.as_deref(), Some("disk"));
}

fn suggestion(fact_key: &str) -> DetectionSuggestion {
    DetectionSuggestion {
        scope: ScopeSelector::Instance { instance_id: "instance-b".to_owned() },
        fact_key: fact_key.to_owned(),
        reason: "stale".to_owned(),
    }
}

fn facts() -> EvaluationFacts {
    EvaluationFacts {
        fact_snapshot_id: "snapshot".to_owned(),
        instances: vec![InstanceSnapshot {
            instance_id: "instance-b".to_owned(),
            server_id: "server-a".to_owned(),
            game_id: "game-a".to_owned(),
        }],
    }
}

fn evaluation(keys: Vec<&str>) -> PolicyEvaluation {
    PolicyEvaluation {
        decisions: vec![PolicyDecision {
            task_id: "task-a".to_owned(),
            instance_id: Some("instance-b".to_owned()),
            detection_suggestions: keys.into_iter().map(suggestion).collect(),
            remainder: String::new(),
        }],
        dispatch_intents: Vec::new(),
        reason_chains: Vec::new(),
        remainder: String::new(),
    }
}

#[test]
fn detection_is_planned_within_the_budget_of_its_window() {
    let mut planner = DetectionPlanner::new(8, PlanningProjections::new());
    let compiled = catalog(1, 'a');
    let plan = |planner: &DetectionPlanner, keys: Vec<&str>| {
        planner
            .preview_detection_planning_signals(
                &compiled,
                &facts(),
                &evaluation(keys),
                &Vec::new(),
                NOW,
            )
            .expect("planned")
    };
    let signals = plan(&planner, vec!["page", "level", "level"]);
    assert_eq!(signals.len(), 2);
    assert_eq!(signals[0].kind, PolicyPlanningSignalKind::DetectionReserved);
    assert_eq!(
        signals[0].signal_id,
        "signal:detection:reserved:29f53350d41308dae4264daefb37a662bbcb410e4ec6a7aad726648b83e18a2b"
    );
    assert_eq!(signals[0].fact_code, "page.stale");
    assert_eq!(signals[1].kind, PolicyPlanningSignalKind::DetectionQuotaExhausted);
    assert_eq!(
        signals[1].signal_id,
        "signal:detection:exhausted:a5b7db458f63d47cf2874d26716cdbb4e862c8013821e6abf9307f0cb633b432"
    );
    planner.commit_planning_signal(&shelf(), 30, &signals[0]).expect("committed");
    planner.commit_planning_signal(&shelf(), 30, &signals[0]).expect("again");
    assert!(plan(&planner, vec!["page"]).is_empty());
    assert_eq!(
        planner.commit_planning_signal(&shelf(), 31, &signals[0]).expect_err("moved").code(),
        "policy_planning_signal_identity_conflict"
    );
    let mut foreign = signals[1].clone();
    foreign.detection_budget.as_mut().expect("budget").dispatch_limit = 9;
    assert_eq!(
        planner.commit_planning_signal(&shelf(), 31, &foreign).expect_err("other budget").code(),
        "policy_detection_budget_profile_mismatch"
    );
    let mut recovered = DetectionPlanner::new(8, PlanningProjections::new());
    recovered
        .recover_planning_signals(
            &shelf(),
            40,
            &vec![(30, Some(signals[0].clone())), (31, Some(signals[1].clone()))],
        )
        .expect("recovered");
    assert_eq!(recovered.projections.checkpoint, Some(40));
    let mut paged = DetectionPlanner::new(8, PlanningProjections::new());
    assert_eq!(paged.recovery_start(40).expect("behind"), Some(0));
    assert_eq!(
        paged.commit_page(&shelf(), 0, &vec![(30, Some(signals[0].clone()))]).expect("page"),
        30
    );
    assert_eq!(
        paged
            .commit_page(&shelf(), 30, &vec![(31, Some(signals[1].clone())), (32, None)])
            .expect_err("no signal")
            .code(),
        "policy_recovery_query_mismatch"
    );
    assert_eq!(paged.recovery_start(40).expect("behind"), Some(31));
    paged.finish_recovery(40, 31).expect("checkpoint");
    assert_eq!(paged.recovery_start(40).expect("through"), None);
    assert_eq!(
        recovered
            .recover_planning_signals(&shelf(), 39, &Vec::new())
            .expect_err("ahead")
            .code(),
        "policy_planning_checkpoint_ahead"
    );
}

#[test]
fn projection_keys_are_digests_of_what_they_name() {
    assert_eq!(
        planning_signal_projection_key("signal"),
        "d041924c15885af6d06530a425c6dbffc80520150c4dd264f40b4364b12421a8"
    );
    assert_eq!(
        detection_quota_projection_key("instance", "window"),
        "0298ae912b3d1d87a9a3c2c56d52198b19afe0c5d3c1f44c69f443b43da537f5"
    );
}

fn manifest() -> ProcedureManifest {
    ProcedureManifest::new(vec![ProcedureBinding::new(
        "proc.a".to_owned(),
        digest('1'),
        "op.a".to_owned(),
        vec!["y1".to_owned()],
    )
    .expect("binding")])
    .expect("manifest")
}

#[test]
fn an_evaluation_gives_the_intents_that_are_new() {
    let mut host = open(&Vec::new());
    let inputs = EvaluationInputCounts {
        facts: 4,
        outcomes: 0,
        tasks: 1,
        instances: 3,
        pools: 1,
        hosts: 1,
    };
    let EvaluationStart::Run { directive, cost } =
        host.begin_evaluation(PolicyTrigger::FactsChanged, NOW, &inputs).expect("begun")
    else {
        panic!("the first evaluation is a full one")
    };
    assert_eq!(directive.kind, PolicyRecomputeKind::Full);
    assert_eq!(cost.catalog_records, 7);
    assert_eq!(cost.task_instance_pairs, 3);
    assert_eq!(cost.work_units, 7 + 4 + 1 + 3 + 2 + 3);
    let mut unbound = intent("d1");
    unbound.package_digest = None;
    unbound.procedure_binding_digest = None;
    let mut decided = evaluation(vec!["page"]);
    decided.dispatch_intents = vec![unbound];
    decided.reason_chains = vec![reasons("d1")];
    let cycle = host
        .finish_evaluation(
            directive,
            cost,
            Some(decided),
            &manifest(),
            &facts(),
            NOW,
            1_500,
            9,
        )
        .expect("cycle");
    assert_eq!(cycle.pending_dispatch_intents.len(), 1);
    assert_eq!(cycle.detection_planning_signals.len(), 1);
    assert_eq!(cycle.measurement.expect("measured").elapsed_micros, 1_500);
    assert_eq!(
        host.finish_evaluation(directive, cost, None, &manifest(), &facts(), NOW, 1, 9)
            .err()
            .expect("rejected")
            .code(),
        "policy_evaluation_rejected"
    );
    let EvaluationStart::Deferred(later) =
        host.begin_evaluation(PolicyTrigger::FactsChanged, NOW + 1, &inputs).expect("begun")
    else {
        panic!("the second evaluation is put off")
    };
    let cycle = PolicyHost::deferred_cycle(later);
    assert_eq!(cycle.directive, later);
    assert!(cycle.evaluation.is_none() && cycle.pending_dispatch_intents.is_empty());
    assert!(cycle.detection_planning_signals.is_empty() && cycle.measurement.is_none());
    let huge = EvaluationInputCounts { instances: usize::MAX, ..inputs };
    let counts = CatalogCounts { tasks: 2, pools: 0, activity_profiles: 0, timeline_events: 0 };
    assert_eq!(
        policy_evaluation_cost(&counts, &huge).expect_err("too much").code(),
        "policy_evaluation_measurement_overflow"
    );
}

#[test]
fn the_cadence_debounces_cools_down_and_reconciles() {
    let mut state = PolicyCadenceState::new(PolicyCadence::default()).expect("cadence");
    let mut observe = |trigger: PolicyTrigger, at: u64| {
        state.observe(trigger, at).map(|directive| (directive.kind, directive.reason))
    };
    let full = PolicyRecomputeKind::Full;
    let deferred = PolicyRecomputeKind::Deferred;
    assert_eq!(
        observe(PolicyTrigger::FactsChanged, 10_000).expect("first"),
        (full, PolicyRecomputeReason::StartupOrRecovery)
    );
    assert_eq!(
        observe(PolicyTrigger::FactsChanged, 10_500).expect("cooldown"),
        (deferred, PolicyRecomputeReason::Cooldown)
    );
    assert_eq!(
        observe(PolicyTrigger::FactsChanged, 11_000).expect("event"),
        (PolicyRecomputeKind::Incremental, PolicyRecomputeReason::Event)
    );
    assert_eq!(
        observe(PolicyTrigger::Reconciliation, 12_000).expect("early"),
        (deferred, PolicyRecomputeReason::Reconciliation)
    );
    assert_eq!(
        observe(PolicyTrigger::ClockObserved { previous_unix_ms: 1_000 }, 13_000).expect("jump"),
        (full, PolicyRecomputeReason::ClockJump)
    );
    assert_eq!(
        observe(PolicyTrigger::CatalogChanged, 13_001).expect("catalog"),
        (full, PolicyRecomputeReason::CatalogActivation)
    );
    assert_eq!(
        observe(PolicyTrigger::Reconciliation, 73_001).expect("due"),
        (full, PolicyRecomputeReason::Reconciliation)
    );
    assert_eq!(
        observe(PolicyTrigger::FactsChanged, 0).expect_err("no time").code(),
        "invalid_policy_time"
    );
    let broken = PolicyCadence { debounce_ms: 0, ..PolicyCadence::default() };
    assert_eq!(broken.validate().expect_err("no debounce").code(), "invalid_policy_cadence");
}

#[test]
fn windows_open_on_their_local_days() {
    // The first of January 1970 was a Thursday.
    assert_eq!(weekday(0), 4);
    assert_eq!(weekday(-1), 3);
    let window = |offset: i32, weekdays: Vec<u8>, start: u16, end: u16| ActivityWindow {
        utc_offset_minutes: offset,
        weekdays,
        start_minute_of_day: start,
        end_minute_of_day: end,
    };
    let day = 86_400_000;
    let minute = 60_000;
    assert_eq!(window_local_day(&window(0, vec![4], 60, 120), 60 * minute), Some(0));
    assert_eq!(window_local_day(&window(0, vec![4], 60, 120), 120 * minute), None);
    // Open from ten in the evening to two in the morning.
    let night = window(0, vec![4], 1_320, 120);
    assert_eq!(window_local_day(&night, 1_330 * minute), Some(0));
    assert_eq!(window_local_day(&night, day + 60 * minute), Some(0));
    assert_eq!(window_local_day(&night, day + 1_330 * minute), None);
    // West of Greenwich it is still Wednesday.
    assert_eq!(window_local_day(&window(-60, vec![3], 0, 0), 0), Some(-1));
    let mut uneven = profile();
    uneven.maximum_interval_ms = 1_003;
    assert_eq!(sampled_interval(&uneven, 7).expect("drawn"), 1_003);
    uneven.maximum_interval_ms = 999;
    assert_eq!(
        sampled_interval(&uneven, 7).expect_err("reversed").code(),
        "policy_activity_interval_invalid"
    );
}

#[test]
fn a_generation_that_is_stored_stays() {
    let mut shelf = shelf();
    shelf.stage(loaded(1, 'a')).expect("again");
    assert_eq!(shelf.loaded.len(), 2);
    assert_eq!(
        shelf.load_generation("x").err().expect("no hash").code(),
        "catalog_hash_invalid"
    );
    let copy: CatalogGeneration = shelf.load_generation(&digest('a')).expect("known").generation.copy();
    assert!(copy.same(&loaded(1, 'a').generation));
}
