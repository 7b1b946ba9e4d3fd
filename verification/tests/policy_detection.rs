//! The cache of detection windows.

use runtime_host::policy::detection::{
    DetectionQuotaState, DetectionQuotaUsage, PolicyDetectionBudgetRecord,
    PolicyPlanningSignalEventData, PolicyPlanningSignalKind,
};
use std::collections::BTreeSet;

const MAX_DETECTION_QUOTA_CACHE_WINDOWS: usize = 64;

fn quota_key(index: usize) -> (String, String) {
    (format!("instance-{index}"), format!("window-{index}"))
}

#[test]
fn detection_quota_cache_evicts_lru_windows_at_the_evaluation_bound() {
    const OVERFLOW: usize = 16;

    let mut state = DetectionQuotaState::new(MAX_DETECTION_QUOTA_CACHE_WINDOWS);
    for index in 0..MAX_DETECTION_QUOTA_CACHE_WINDOWS + OVERFLOW {
        state
            .cache_usage(
                quota_key(index),
                DetectionQuotaUsage { dispatch_used: 1, runtime_reserved_ms: 1 },
            )
            .expect("cache quota usage");
    }

    assert_eq!(state.windows.len(), MAX_DETECTION_QUOTA_CACHE_WINDOWS);
    assert_eq!(state.recency.len(), MAX_DETECTION_QUOTA_CACHE_WINDOWS);
    for index in 0..OVERFLOW {
        assert!(!state.windows.contains(&quota_key(index)));
    }

    let touched = quota_key(OVERFLOW);
    state.touch(&touched);
    state
        .cache_usage(
            quota_key(MAX_DETECTION_QUOTA_CACHE_WINDOWS + OVERFLOW),
            DetectionQuotaUsage { dispatch_used: 2, runtime_reserved_ms: 2 },
        )
        .expect("cache next quota usage");

    assert!(state.windows.contains(&touched));
    assert!(!state.windows.contains(&quota_key(OVERFLOW + 1)));
    assert_eq!(
        state.recency.iter().cloned().collect::<BTreeSet<_>>(),
        state.windows.entries.iter().map(|entry| entry.0.clone()).collect::<BTreeSet<_>>()
    );
}

fn signal(
    kind: PolicyPlanningSignalKind,
    dispatch_used: u32,
    runtime_reserved_ms: u64,
) -> PolicyPlanningSignalEventData {
    PolicyPlanningSignalEventData {
        signal_id: "signal:detection:reserved:1".to_owned(),
        instance_id: "instance-a".to_owned(),
        task_id: Some("task-a".to_owned()),
        kind,
        fact_code: "page.stale".to_owned(),
        observed_at_unix_ms: 1_000,
        detection_budget: Some(PolicyDetectionBudgetRecord {
            catalog_hash: "sha256:x".to_owned(),
            profile_id: "profile-a".to_owned(),
            window_id: "profile-a:1:0".to_owned(),
            dispatch_used,
            dispatch_limit: 2,
            runtime_reserved_ms,
            runtime_limit_ms: 1_000,
            reservation_ms: 400,
        }),
    }
}

#[test]
fn reservations_count_up_to_the_budget_of_their_window() {
    let mut state = DetectionQuotaState::new(4);
    let reserved = PolicyPlanningSignalKind::DetectionReserved;
    let exhausted = PolicyPlanningSignalKind::DetectionQuotaExhausted;
    state.commit_signal(&signal(reserved, 1, 400)).expect("first");
    assert_eq!(
        state.commit_signal(&signal(reserved, 1, 400)).expect_err("stale").code(),
        "policy_detection_budget_receipt_mismatch"
    );
    assert_eq!(
        state.commit_signal(&signal(exhausted, 1, 400)).expect_err("room left").code(),
        "policy_detection_budget_receipt_mismatch"
    );
    state.commit_signal(&signal(reserved, 2, 800)).expect("second");
    assert_eq!(
        state.commit_signal(&signal(reserved, 3, 1_200)).expect_err("over").code(),
        "policy_detection_budget_receipt_mismatch"
    );
    state.commit_signal(&signal(exhausted, 2, 800)).expect("exhausted");
}

#[test]
fn only_detection_signals_carry_a_budget() {
    let mut state = DetectionQuotaState::new(4);
    let mut other = signal(PolicyPlanningSignalKind::Other(7), 1, 400);
    assert_eq!(
        state.commit_signal(&other).expect_err("unexpected").code(),
        "policy_detection_budget_unexpected"
    );
    other.detection_budget = None;
    state.commit_signal(&other).expect("no budget");
    let mut missing = signal(PolicyPlanningSignalKind::DetectionReserved, 1, 400);
    missing.detection_budget = None;
    assert_eq!(
        state.commit_signal(&missing).expect_err("missing").code(),
        "policy_detection_budget_missing"
    );
}
