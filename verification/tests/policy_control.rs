//! Admissions and outcomes on a small catalog.

use runtime_host::performance::monitor::PerformanceContext;
use runtime_host::performance::pressure::{
    PerformancePressureKind, PerformancePressureRecord, PerformancePressureSeverity,
    PerformancePressureValue,
};
use runtime_host::performance::sample::PerformanceMonitorHealth;
use runtime_host::performance_control::LoadProfile;
use runtime_host::policy::catalog::{
    ActivityProfile, ActivityWindow, CatalogCounts, DetectionBudget, DispatchIntent,
    DispatchPrerequisites, FailureAction, FailurePolicy, LoopBudget, PolicyCatalog, ScopeSelector,
    TaskSpec,
};
use runtime_host::policy::control::{
    PolicyControlState, PolicyExecutionInput, PolicyExecutionOutcome, PolicyFailureClass,
    PolicyFailureDisposition,
};
use runtime_host::policy::outcome::retry_backoff_ms;

const NOW: u64 = 1_699_963_200_000;

fn catalog_with(
    task_mutator: impl FnOnce(&mut TaskSpec),
    activity_mutator: impl FnOnce(&mut ActivityProfile),
) -> PolicyCatalog {
    let mut task = TaskSpec {
        id: "fixture-task-a".to_owned(),
        procedure_ref: "procedure.fixture-a".to_owned(),
        operation_id: "operation.fixture-a".to_owned(),
        expected_duration_ms: 60_000,
        yield_points: Vec::new(),
        load_profile: LoadProfile::Light,
        scope: ScopeSelector::Instance { instance_id: "fixture-instance-a".to_owned() },
        sensitive: false,
        loop_budget: LoopBudget {
            daily_limit: 4,
            window_iteration_limit: 4,
            max_runtime_ms: 600_000,
        },
        on_failure: FailurePolicy {
            action: FailureAction::Continue,
            retry_limit: 2,
            retry_backoff_ms: 1_000,
            escalation_threshold: 3,
        },
        next_run_clamp_ms: 3_600_000,
    };
    task_mutator(&mut task);
    let mut profile = ActivityProfile {
        id: "fixture-activity-a".to_owned(),
        scope: ScopeSelector::Game { game_id: "fixture-game".to_owned() },
        windows: vec![ActivityWindow {
            utc_offset_minutes: 0,
            weekdays: vec![1, 2, 3, 4, 5, 6, 7],
            start_minute_of_day: 0,
            end_minute_of_day: 0,
        }],
        minimum_interval_ms: 60_000,
        maximum_interval_ms: 300_000,
        daily_budget: 8,
        max_window_iterations: 8,
        session_max_ms: 900_000,
        detection_budget: DetectionBudget {
            window_dispatch_limit: 4,
            window_runtime_ms: 60_000,
            expected_duration_ms: 5_000,
        },
    };
    activity_mutator(&mut profile);
    PolicyCatalog {
        catalog_id: "fixture-catalog".to_owned(),
        catalog_version: 1,
        catalog_hash: "sha256:fixture".to_owned(),
        approval_refs: Vec::new(),
        tasks: vec![task],
        profiles: vec![profile],
        counts: CatalogCounts { tasks: 1, pools: 0, activity_profiles: 1, timeline_events: 0 },
    }
}

fn catalog() -> PolicyCatalog {
    catalog_with(|_| {}, |_| {})
}

fn unavailable(at_unix_ms: u64) -> PerformanceContext {
    PerformanceContext::unavailable(at_unix_ms)
}

fn pressured(at_unix_ms: u64) -> PerformanceContext {
    PerformanceContext {
        window_start_unix_ms: at_unix_ms.saturating_sub(30_000).max(1),
        window_end_unix_ms: at_unix_ms,
        health: PerformanceMonitorHealth::Healthy,
        sample_count: 1,
        unavailable_metrics: Vec::new(),
        pressures: vec![PerformancePressureRecord {
            kind: PerformancePressureKind::Cpu,
            severity: PerformancePressureSeverity::High,
            started_at_unix_ms: at_unix_ms.saturating_sub(1).max(1),
            last_observed_at_unix_ms: at_unix_ms,
            peak: PerformancePressureValue::Utilization { basis_points: 9_500 },
        }],
        max_cpu_basis_points: Some(9_500),
        max_ram_basis_points: Some(4_000),
        disk_queue_depth_p95_milli: None,
        disk_latency_p95_micros: None,
        max_gpu_basis_points: None,
        max_frame_gap_ms: None,
        max_capture_latency_ms: None,
        max_recognition_latency_ms: None,
        max_action_effect_latency_ms: None,
        related_event_ids: Vec::new(),
    }
}

fn intent(catalog: &PolicyCatalog, suffix: u64) -> DispatchIntent {
    let task = &catalog.tasks[0];
    DispatchIntent {
        decision_id: format!("decision:fixture-{suffix}"),
        task_id: task.id.clone(),
        instance_id: "fixture-instance-a".to_owned(),
        operation_id: task.operation_id.clone(),
        procedure_ref: task.procedure_ref.clone(),
        package_digest: None,
        procedure_binding_digest: None,
        catalog_hash: catalog.catalog_hash.clone(),
        catalog_version: catalog.catalog_version,
        input_ledger_position: 1,
        fact_snapshot_id: "snapshot:fixture-a".to_owned(),
        approval_refs: catalog.approval_refs.clone(),
        reason_chain_id: format!("reason:fixture-{suffix}"),
        expected_duration_ms: task.expected_duration_ms,
        yield_points: Vec::new(),
        load_profile: LoadProfile::Light,
        prerequisites: DispatchPrerequisites {
            fencing_required: true,
            evaluated_at_unix_ms: NOW,
            facts_fresh_until_unix_ms: None,
            activity_profile_id: "fixture-activity-a".to_owned(),
            daily_limit: task.loop_budget.daily_limit,
            window_iteration_limit: task.loop_budget.window_iteration_limit,
            max_runtime_ms: task.loop_budget.max_runtime_ms,
            urgency_milli: 0,
        },
    }
}

fn transient() -> PolicyExecutionInput {
    PolicyExecutionInput::Failed {
        error_code: "transient.capture".to_owned(),
        class: PolicyFailureClass::Recoverable,
    }
}

#[test]
fn recoverable_failures_back_off_then_escalate_same_error() {
    let catalog = catalog();
    let mut state = PolicyControlState::new();
    for attempt in 1_u16..=3 {
        let intent = intent(&catalog, u64::from(attempt));
        let admission = state.preview_admission(&catalog, &intent, NOW).expect("admission preview");
        let data = state
            .preview_execution(
                &catalog,
                &intent,
                &admission,
                NOW + 100,
                &transient(),
                &unavailable(NOW + 100),
            )
            .expect("failure classification");
        let PolicyExecutionOutcome::Failed { failure } = &data.outcome else {
            panic!("expected failure")
        };
        if attempt < 3 {
            assert_eq!(failure.effective_class, PolicyFailureClass::Recoverable);
            assert_eq!(failure.disposition, PolicyFailureDisposition::RetryScheduled);
            assert_eq!(failure.retry_attempt, attempt);
            assert!(failure.retry_at_unix_ms.is_some());
        } else {
            assert_eq!(failure.effective_class, PolicyFailureClass::Severe);
            assert_eq!(failure.disposition, PolicyFailureDisposition::PausedTask);
            assert_eq!(failure.retry_attempt, 0);
            assert!(failure.retry_at_unix_ms.is_none());
        }
        state.commit_execution(&catalog, &intent, &admission, &data).expect("commit failure");
    }
}

#[test]
fn performance_pressure_exempts_escalation_but_not_bounded_retry_count() {
    let catalog = catalog_with(
        |task| {
            task.on_failure.retry_limit = 2;
            task.on_failure.escalation_threshold = 2;
        },
        |_| {},
    );
    let mut state = PolicyControlState::new();
    for attempt in 1_u16..=3 {
        let intent = intent(&catalog, u64::from(attempt));
        let admission = state.preview_admission(&catalog, &intent, NOW).expect("admission preview");
        let data = state
            .preview_execution(
                &catalog,
                &intent,
                &admission,
                NOW + 100,
                &transient(),
                &pressured(NOW + 100),
            )
            .expect("performance-associated failure");
        let PolicyExecutionOutcome::Failed { failure } = &data.outcome else {
            panic!("expected failure")
        };
        assert!(failure.performance_tax_exempt);
        assert_eq!(failure.consecutive_same_error, attempt);
        assert_eq!(failure.escalation_streak, 0);
        assert_eq!(failure.effective_class, PolicyFailureClass::Recoverable);
        if attempt <= 2 {
            assert_eq!(failure.disposition, PolicyFailureDisposition::RetryScheduled);
        } else {
            assert_eq!(failure.disposition, PolicyFailureDisposition::Continue);
            assert_eq!(failure.retry_attempt, 0);
            assert!(failure.retry_at_unix_ms.is_none());
        }
        state.commit_execution(&catalog, &intent, &admission, &data).expect("commit failure");
    }
}

#[test]
fn sensitive_failure_never_schedules_an_automatic_retry() {
    let catalog = catalog_with(|task| task.sensitive = true, |_| {});
    let state = PolicyControlState::new();
    let intent = intent(&catalog, 1);
    let admission = state.preview_admission(&catalog, &intent, NOW).expect("admission preview");
    let data = state
        .preview_execution(
            &catalog,
            &intent,
            &admission,
            NOW + 100,
            &transient(),
            &unavailable(NOW + 100),
        )
        .expect("failure classification");
    let PolicyExecutionOutcome::Failed { failure } = data.outcome else {
        panic!("expected failure")
    };
    assert!(failure.sensitive);
    assert_eq!(failure.effective_class, PolicyFailureClass::Severe);
    assert_eq!(failure.disposition, PolicyFailureDisposition::PausedTask);
    assert!(failure.retry_at_unix_ms.is_none());
}

#[test]
fn failure_streak_requires_the_same_class_and_error() {
    let catalog = catalog();
    let mut state = PolicyControlState::new();
    for (suffix, error_code, class) in [
        (1, "transient.capture", PolicyFailureClass::Recoverable),
        (2, "transient.network", PolicyFailureClass::Recoverable),
        (3, "transient.capture", PolicyFailureClass::Severe),
    ] {
        let intent = intent(&catalog, suffix);
        let admission = state.preview_admission(&catalog, &intent, NOW).expect("admission preview");
        let data = state
            .preview_execution(
                &catalog,
                &intent,
                &admission,
                NOW + 100,
                &PolicyExecutionInput::Failed { error_code: error_code.to_owned(), class },
                &unavailable(NOW + 100),
            )
            .expect("failure classification");
        let PolicyExecutionOutcome::Failed { failure } = &data.outcome else {
            panic!("expected failure")
        };
        assert_eq!(failure.consecutive_same_error, 1);
        state.commit_execution(&catalog, &intent, &admission, &data).expect("commit failure");
    }
}

#[test]
fn zero_configured_backoff_still_schedules_a_bounded_delay() {
    let catalog = catalog_with(
        |task| {
            task.on_failure.retry_backoff_ms = 0;
            task.next_run_clamp_ms = 5;
        },
        |_| {},
    );
    let state = PolicyControlState::new();
    let intent = intent(&catalog, 1);
    let admission = state.preview_admission(&catalog, &intent, NOW).expect("admission preview");
    let data = state
        .preview_execution(
            &catalog,
            &intent,
            &admission,
            NOW + 100,
            &transient(),
            &unavailable(NOW + 100),
        )
        .expect("failure classification");
    let PolicyExecutionOutcome::Failed { failure } = data.outcome else {
        panic!("expected failure")
    };
    assert_eq!(failure.retry_at_unix_ms, Some(NOW + 101));
}

#[test]
fn exhausted_retry_limit_uses_the_declared_continue_or_pause_action() {
    for (action, expected) in [
        (FailureAction::Continue, PolicyFailureDisposition::Continue),
        (FailureAction::Pause, PolicyFailureDisposition::PausedTask),
    ] {
        let catalog = catalog_with(
            |task| {
                task.on_failure.action = action;
                task.on_failure.retry_limit = 1;
                task.on_failure.escalation_threshold = 5;
            },
            |_| {},
        );
        let mut state = PolicyControlState::new();
        for attempt in 1_u64..=2 {
            let intent = intent(&catalog, attempt);
            let admission =
                state.preview_admission(&catalog, &intent, NOW).expect("admission preview");
            let data = state
                .preview_execution(
                    &catalog,
                    &intent,
                    &admission,
                    NOW + 100,
                    &transient(),
                    &unavailable(NOW + 100),
                )
                .expect("failure classification");
            let PolicyExecutionOutcome::Failed { failure } = &data.outcome else {
                panic!("expected failure")
            };
            if attempt == 1 {
                assert_eq!(failure.disposition, PolicyFailureDisposition::RetryScheduled);
            } else {
                assert_eq!(failure.effective_class, PolicyFailureClass::Recoverable);
                assert_eq!(failure.disposition, expected);
                assert!(failure.retry_at_unix_ms.is_none());
            }
            state.commit_execution(&catalog, &intent, &admission, &data).expect("commit failure");
        }
    }
}

#[test]
fn runtime_owned_daily_budget_cannot_be_bypassed() {
    let catalog = catalog_with(
        |task| task.loop_budget.daily_limit = 2,
        |profile| profile.daily_budget = 2,
    );
    let mut state = PolicyControlState::new();
    for index in 0..2 {
        let now = NOW + index * 600_000;
        let intent = intent(&catalog, index + 1);
        let admission = state.preview_admission(&catalog, &intent, now).expect("budget admission");
        state.commit_admission(&catalog, &intent, &admission).expect("commit budget");
    }
    let error = state
        .preview_admission(&catalog, &intent(&catalog, 3), NOW + 1_200_000)
        .expect_err("third daily admission must fail");
    assert_eq!(error.code(), "policy_budget_exhausted");
}

#[test]
fn runtime_owned_window_and_runtime_budgets_cannot_be_bypassed() {
    let window_catalog = catalog_with(
        |task| {
            task.loop_budget.daily_limit = 10;
            task.loop_budget.window_iteration_limit = 1;
        },
        |profile| {
            profile.daily_budget = 10;
            profile.max_window_iterations = 10;
        },
    );
    let mut window_state = PolicyControlState::new();
    let first = intent(&window_catalog, 1);
    let admission = window_state
        .preview_admission(&window_catalog, &first, NOW)
        .expect("first window admission");
    window_state
        .commit_admission(&window_catalog, &first, &admission)
        .expect("commit window budget");
    let error = window_state
        .preview_admission(&window_catalog, &intent(&window_catalog, 2), NOW + 600_000)
        .expect_err("second window iteration must fail");
    assert_eq!(error.code(), "policy_budget_exhausted");

    let runtime_catalog = catalog_with(
        |task| {
            task.loop_budget.daily_limit = 10;
            task.loop_budget.window_iteration_limit = 10;
            task.loop_budget.max_runtime_ms = 100_000;
        },
        |profile| {
            profile.daily_budget = 10;
            profile.max_window_iterations = 10;
        },
    );
    let mut runtime_state = PolicyControlState::new();
    let first = intent(&runtime_catalog, 1);
    let admission = runtime_state
        .preview_admission(&runtime_catalog, &first, NOW)
        .expect("first runtime admission");
    runtime_state
        .commit_admission(&runtime_catalog, &first, &admission)
        .expect("commit runtime budget");
    let error = runtime_state
        .preview_admission(&runtime_catalog, &intent(&runtime_catalog, 2), NOW + 600_000)
        .expect_err("runtime reservation must remain bounded");
    assert_eq!(error.code(), "policy_budget_exhausted");
}

#[test]
fn actual_runtime_replaces_the_reservation_before_the_next_admission() {
    let catalog = catalog_with(
        |task| {
            task.expected_duration_ms = 30_000;
            task.loop_budget.daily_limit = 10;
            task.loop_budget.window_iteration_limit = 10;
            task.loop_budget.max_runtime_ms = 100_000;
        },
        |profile| {
            profile.daily_budget = 10;
            profile.max_window_iterations = 10;
            profile.session_max_ms = 100_000;
        },
    );
    let mut state = PolicyControlState::new();
    let first = intent(&catalog, 1);
    let admission = state.preview_admission(&catalog, &first, NOW).expect("first admission");
    state.commit_admission(&catalog, &first, &admission).expect("commit first admission");
    let execution = state
        .preview_execution(
            &catalog,
            &first,
            &admission,
            NOW + 80_000,
            &PolicyExecutionInput::Succeeded,
            &unavailable(NOW + 80_000),
        )
        .expect("first execution");
    state
        .commit_execution(&catalog, &first, &admission, &execution)
        .expect("commit actual runtime");
    let error = state
        .preview_admission(&catalog, &intent(&catalog, 2), NOW + 600_000)
        .expect_err("actual runtime must constrain the next admission");
    assert_eq!(error.code(), "policy_budget_exhausted");
}

#[test]
fn activity_sample_is_stable_and_recorded_before_cadence_blocks_reentry() {
    let catalog = catalog();
    let mut state = PolicyControlState::new();
    let first_intent = intent(&catalog, 1);
    let first = state.preview_admission(&catalog, &first_intent, NOW).expect("first sample");
    let replay = state.preview_admission(&catalog, &first_intent, NOW).expect("same-round sample");
    assert_eq!(first, replay);
    assert!(first.activity.seed > 0);
    state.commit_admission(&catalog, &first_intent, &first).expect("commit sample");
    let error = state
        .preview_admission(&catalog, &intent(&catalog, 2), NOW)
        .expect_err("cadence must block immediate resampling");
    assert_eq!(error.code(), "policy_activity_interval_active");
}

#[test]
fn the_seed_is_drawn_from_the_digest_of_decision_profile_and_window() {
    let catalog = catalog();
    let state = PolicyControlState::new();
    let drawn = state.preview_admission(&catalog, &intent(&catalog, 1), NOW).expect("sample");
    assert_eq!(drawn.activity.window_id, "fixture-activity-a:19675:0");
    assert_eq!(drawn.activity.local_day, 19_675);
    // The first eight bytes of the digest of the three names, separated by zero bytes.
    assert_eq!(drawn.activity.seed, 10_541_103_189_088_418_691);
    assert_eq!(
        drawn.activity.interval_ms,
        60_000 + drawn.activity.seed % (300_000 - 60_000 + 1)
    );
    assert_eq!(drawn.activity.next_eligible_unix_ms, NOW + drawn.activity.interval_ms);
    let seeded = state
        .preview_seeded_admission(&catalog, &intent(&catalog, 1), NOW, drawn.activity.seed)
        .expect("seeded");
    assert_eq!(seeded, drawn);
}

#[test]
fn a_receipt_that_no_longer_fits_is_not_charged() {
    let catalog = catalog();
    let mut state = PolicyControlState::new();
    let first = intent(&catalog, 1);
    let mut admission = state.preview_admission(&catalog, &first, NOW).expect("sample");
    admission.budget.task_daily_used = 2;
    assert_eq!(
        state.commit_admission(&catalog, &first, &admission).expect_err("changed").code(),
        "policy_budget_receipt_mismatch"
    );
    assert_eq!(state.task_daily.len(), 0);
}

#[test]
fn an_intent_without_task_profile_or_open_window_is_refused() {
    let catalog = catalog_with(|_| {}, |profile| profile.windows[0].weekdays = vec![1]);
    let state = PolicyControlState::new();
    let code = |intent: &DispatchIntent| {
        state.preview_admission(&catalog, intent, NOW).expect_err("refused").code()
    };
    // The fourteenth of November 2023 is a Tuesday.
    assert_eq!(code(&intent(&catalog, 1)), "policy_activity_window_closed");
    let mut other = intent(&catalog, 1);
    other.prerequisites.activity_profile_id = "unknown".to_owned();
    assert_eq!(code(&other), "policy_activity_profile_missing");
    other.task_id = "unknown".to_owned();
    assert_eq!(code(&other), "policy_task_missing");
}

#[test]
fn an_overrun_is_a_severe_failure_even_of_a_success() {
    let catalog = catalog();
    let mut state = PolicyControlState::new();
    let first = intent(&catalog, 1);
    let admission = state.preview_admission(&catalog, &first, NOW).expect("sample");
    let at = NOW + 600_001;
    let data = state
        .preview_execution(
            &catalog,
            &first,
            &admission,
            at,
            &PolicyExecutionInput::Succeeded,
            &unavailable(at),
        )
        .expect("classified");
    let PolicyExecutionOutcome::Failed { failure } = &data.outcome else {
        panic!("expected failure")
    };
    assert_eq!(failure.error_code, "policy_runtime_budget_exceeded");
    assert!(failure.reported_success);
    assert_eq!(failure.disposition, PolicyFailureDisposition::PausedTask);
    state.commit_execution(&catalog, &first, &admission, &data).expect("commit");
    let before = state
        .preview_execution(
            &catalog,
            &first,
            &admission,
            NOW - 1,
            &PolicyExecutionInput::Succeeded,
            &unavailable(NOW),
        )
        .expect_err("clock went back");
    assert_eq!(before.code(), "policy_execution_time_reversed");
}

#[test]
fn the_retry_delay_doubles_up_to_its_limit() {
    let catalog = catalog_with(
        |task| {
            task.on_failure.retry_backoff_ms = 1_000;
            task.next_run_clamp_ms = 10_000;
        },
        |_| {},
    );
    let task = &catalog.tasks[0];
    assert_eq!(retry_backoff_ms(task, 0), 1_000);
    assert_eq!(retry_backoff_ms(task, 1), 1_000);
    assert_eq!(retry_backoff_ms(task, 2), 2_000);
    assert_eq!(retry_backoff_ms(task, 4), 8_000);
    assert_eq!(retry_backoff_ms(task, 5), 10_000);
    assert_eq!(retry_backoff_ms(task, u16::MAX), 10_000);
}
