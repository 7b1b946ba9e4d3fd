//! Room on the volumes of the host.

use runtime_host::error::{RuntimeErrorCode, RuntimeHostError};
use runtime_host::performance::capacity::{
    CapacityAdmissionOutcome, CapacityAdmissionReason, CapacityDecision, CapacityProjection,
    CapacityPurpose, CapacityState, CapacityThresholds, PerformanceCapacitySample, RawVolume,
    RuntimeClockSample, VolumeError,
};
use runtime_host::performance::capacity_monitor::{
    admit_capacity, bounded_native, capacity_interval, capacity_sample,
    check_capacity_thresholds, sample_severity, CapacityAction, CapacityEvent, CapacityMonitor,
};
use runtime_host::performance::capacity_round::{
    CapacityRound, CapacityWatch, RoundProgress, RoundReply, RoundStep,
};
use runtime_host::performance::monitor::EventSeverity;
use runtime_host::performance::pressure::PerformancePressureSeverity;
use runtime_host::period::Period;

const THRESHOLDS: CapacityThresholds = CapacityThresholds { soft_bytes: 100, hard_bytes: 50 };

fn at(ms: u64) -> RuntimeClockSample {
    RuntimeClockSample { unix_ms: ms, monotonic_ms: ms }
}

fn purposes() -> Vec<CapacityPurpose> {
    vec![
        CapacityPurpose::Installation,
        CapacityPurpose::State,
        CapacityPurpose::Artifact,
        CapacityPurpose::ArtifactStaging,
    ]
}

fn volume(id: &str, targets: Vec<usize>, free: u64) -> RawVolume {
    RawVolume { volume_id: Some(id.to_owned()), targets, available_bytes: Ok(free) }
}

fn sample(system: u64, artifacts: u64) -> PerformanceCapacitySample {
    capacity_sample(
        7,
        Period::from_millis(1_000),
        THRESHOLDS,
        &purposes(),
        at(10_000),
        &vec![volume("c", vec![0, 1], system), volume("d", vec![2, 3], artifacts)],
    )
    .expect("sample")
}

fn projection(system: u64, artifacts: u64) -> CapacityProjection {
    let mut projection = CapacityProjection { owner_epoch: 7, committed: None };
    projection.commit(sample(system, artifacts), Ok((1, 2))).expect("recorded");
    projection
}

fn bindings(artifact: Option<&str>) -> Vec<(CapacityPurpose, Option<String>)> {
    vec![
        (CapacityPurpose::Installation, Some("c".to_owned())),
        (CapacityPurpose::State, Some("c".to_owned())),
        (CapacityPurpose::Artifact, artifact.map(str::to_owned)),
        (CapacityPurpose::ArtifactStaging, Some("d".to_owned())),
    ]
}

fn decide(projection: &CapacityProjection, bytes: u64, now: u64) -> CapacityDecision {
    projection.decide(&bindings(Some("d")), &Some(Some("d".to_owned())), bytes, at(now))
}

#[test]
fn a_request_leaves_the_hard_reserve_on_its_volume() {
    let roomy = projection(1_000, 150);
    let allowed = decide(&roomy, 100, 10_500);
    assert_eq!(allowed.outcome, CapacityAdmissionOutcome::Allowed);
    assert_eq!(allowed.reason, CapacityAdmissionReason::FreshSample);
    assert_eq!(allowed.target_volume.as_deref(), Some("d"));
    assert_eq!(allowed.fact.expect("fact").sequence, 2);
    let refused = decide(&roomy, 101, 10_500);
    assert_eq!(refused.outcome, CapacityAdmissionOutcome::HardPressure);
    assert_eq!(refused.reason, CapacityAdmissionReason::HardThreshold);
    let huge = decide(&roomy, u64::MAX, 10_500);
    assert_eq!(huge.outcome, CapacityAdmissionOutcome::RequiredBytesOverflow);
    let tight = decide(&projection(99, 1_000), 0, 10_500);
    assert_eq!(tight.outcome, CapacityAdmissionOutcome::SoftPressure);
    let (error, decision) = admit_capacity(Some(Ok(refused)), false).expect_err("refused");
    assert_eq!(error.code(), "capacity_admission_refused");
    assert_eq!(decision.expect("decision").requested_bytes, 101);
    admit_capacity(Some(Ok(tight)), true).expect("allowed");
    let (error, decision) = admit_capacity(None, false).expect_err("not watched");
    assert_eq!(error.code(), "capacity_owner_missing");
    assert!(decision.is_none());
}

#[test]
fn only_a_fresh_sample_of_the_same_volumes_decides() {
    let roomy = projection(1_000, 1_000);
    assert_eq!(decide(&roomy, 0, 12_000).reason, CapacityAdmissionReason::FreshSample);
    assert_eq!(decide(&roomy, 0, 12_001).reason, CapacityAdmissionReason::OutsideFreshness);
    assert_eq!(decide(&roomy, 0, 9_999).reason, CapacityAdmissionReason::OutsideFreshness);
    let moved = roomy.decide(&bindings(Some("c")), &None, 0, at(10_500));
    assert_eq!(moved.reason, CapacityAdmissionReason::BindingChanged);
    let lost = roomy.decide(&bindings(None), &None, 0, at(10_500));
    assert_eq!(lost.reason, CapacityAdmissionReason::BindingChanged);
    let elsewhere =
        roomy.decide(&bindings(Some("d")), &Some(Some("c".to_owned())), 0, at(10_500));
    assert_eq!(elsewhere.reason, CapacityAdmissionReason::BindingChanged);
    let other_owner = CapacityProjection { owner_epoch: 8, ..projection(1_000, 1_000) };
    assert_eq!(decide(&other_owner, 0, 10_500).reason, CapacityAdmissionReason::OwnerChanged);
    let mut empty = projection(1_000, 1_000);
    let failed = RuntimeHostError::fatal("x", "y", RuntimeErrorCode::LedgerFailure);
    empty.commit(sample(1, 1), Err(failed)).expect_err("not recorded");
    assert_eq!(decide(&empty, 0, 10_500).reason, CapacityAdmissionReason::NoCommittedFact);
}

fn unknown() -> PerformanceCapacitySample {
    capacity_sample(
        7,
        Period::from_millis(1_000),
        THRESHOLDS,
        &purposes(),
        at(10_000),
        &vec![RawVolume {
            volume_id: None,
            targets: vec![0],
            available_bytes: Err(VolumeError {
                operation: "statvfs".to_owned(),
                raw_os_error: Some(5),
                detail: "x".repeat(2_000),
            }),
        }],
    )
    .expect("sample")
}

#[test]
fn a_volume_that_cannot_be_read_is_unknown() {
    let sample = unknown();
    assert_eq!(sample.volumes[0].state, CapacityState::Unknown);
    let cause = sample.volumes[0].cause.as_ref().expect("cause");
    assert_eq!(cause.detail.text.len(), 1_024);
    assert!(cause.detail.truncated);
    assert_eq!(sample_severity(&sample), EventSeverity::Warning);
    assert_eq!(sample.freshness_ms, 2_000);
    let mut projection = CapacityProjection { owner_epoch: 7, committed: None };
    projection.commit(sample, Ok((1, 2))).expect("recorded");
    assert_eq!(
        decide(&projection, 0, 10_500).reason,
        CapacityAdmissionReason::SampleUnavailable
    );
    assert_eq!(
        capacity_sample(
            7,
            Period::from_millis(1),
            THRESHOLDS,
            &purposes(),
            at(1),
            &vec![volume("c", vec![4], 1)]
        )
            .err()
            .expect("no such target")
            .code(),
        "invalid_capacity_sample_target"
    );
    assert_eq!(capacity_interval(None), Period::from_millis(2_000));
    assert_eq!(capacity_interval(Some(Period::from_nanos(5))), Period::from_nanos(5));
}

#[test]
fn native_texts_are_cut_between_characters() {
    let text = format!("{}é", "x".repeat(1_023));
    let cut = bounded_native(&text);
    assert_eq!(cut.text, "x".repeat(1_023));
    assert!(cut.truncated);
    let short = bounded_native("é");
    assert_eq!(short.text, "é");
    assert!(!short.truncated);
}

#[test]
fn a_shortage_is_recorded_when_it_begins_changes_and_ends() {
    let mut monitor = CapacityMonitor::new(THRESHOLDS);
    assert_eq!(
        monitor.record_transitions(&sample(1_000, 1_000), 1).expect("fine"),
        CapacityAction::Done
    );
    let scarce = sample(1_000, 60);
    let started = match monitor.record_transitions(&scarce, 2).expect("scarce") {
        CapacityAction::Append { severity: EventSeverity::Warning, event } => event,
        _ => panic!("a shortage began"),
    };
    monitor.event_recorded(started, Ok(()), &scarce, 2).expect("recorded");
    assert_eq!(monitor.record_transitions(&scarce, 3).expect("same"), CapacityAction::Done);
    let worse = sample(1_000, 10);
    match monitor.record_transitions(&worse, 4).expect("worse") {
        CapacityAction::Append {
            severity: EventSeverity::Error,
            event: CapacityEvent::PressureStarted { pressure, .. },
        } => {
            assert_eq!(pressure.severity, PerformancePressureSeverity::High);
            assert_eq!(pressure.started_at_unix_ms, 2);
            assert_eq!(pressure.available_bytes, 10);
        }
        _ => panic!("the shortage became worse"),
    }
    match monitor.record_transitions(&sample(1_000, 1_000), 5).expect("over") {
        CapacityAction::Append { event: CapacityEvent::PressureEnded { pressure, .. }, .. } => {
            assert_eq!(pressure.last_observed_at_unix_ms, 5);
        }
        _ => panic!("the shortage is over"),
    }
}

#[test]
fn failed_samples_are_recorded_the_first_and_the_third_time() {
    let mut monitor = CapacityMonitor::new(THRESHOLDS);
    let mut recorded = Vec::new();
    for round in 1..=4 {
        recorded.push(monitor.record_transitions(&unknown(), round).expect("counted"));
    }
    assert!(matches!(
        recorded[0],
        CapacityAction::Append { severity: EventSeverity::Warning, .. }
    ));
    assert_eq!(recorded[1], CapacityAction::Done);
    assert!(matches!(recorded[2], CapacityAction::Append { severity: EventSeverity::Error, .. }));
    assert_eq!(recorded[3], CapacityAction::Done);
    let fine = sample(1_000, 60);
    let recovered = match monitor.record_transitions(&fine, 9).expect("recovered") {
        CapacityAction::Append { event, .. } => event,
        CapacityAction::Done => panic!("the recovery is recorded"),
    };
    assert_eq!(recovered, CapacityEvent::MonitorRecovered { observed_at_unix_ms: 9 });
    let next = monitor.event_recorded(recovered, Ok(()), &fine, 9).expect("goes on");
    assert!(matches!(
        next,
        CapacityAction::Append { event: CapacityEvent::PressureStarted { .. }, .. }
    ));
    assert_eq!(monitor.consecutive_failures, 0);
}

fn look(
    watch: &mut CapacityWatch,
    sample: PerformanceCapacitySample,
    reply: impl Fn(RoundStep) -> RoundReply,
) -> (Vec<RoundStep>, Result<(), &'static str>) {
    let mut round = CapacityRound::new(sample);
    let mut trace = Vec::new();
    loop {
        let step = round.step;
        trace.push(step);
        match round.advance(watch, reply(step)) {
            RoundProgress::Next(next) => round = next,
            RoundProgress::End(end) => return (trace, end.map_err(|error| error.code())),
        }
    }
}

fn recorded(step: RoundStep) -> RoundReply {
    match step {
        RoundStep::Validate => RoundReply::Valid(true),
        _ => RoundReply::Recorded { event_id: 3, sequence: 4 },
    }
}

#[test]
fn only_a_recorded_sample_counts() {
    let mut watch = CapacityWatch {
        monitor: CapacityMonitor::new(THRESHOLDS),
        projection: CapacityProjection { owner_epoch: 7, committed: None },
        performance: true,
    };
    let (trace, end) = look(&mut watch, sample(10_000, 10_000), recorded);
    assert_eq!(end, Ok(()));
    assert_eq!(
        trace,
        vec![RoundStep::Validate, RoundStep::AppendSummary, RoundStep::AppendReference]
    );
    assert_eq!(watch.projection.committed.as_ref().expect("counts").reference.sequence, 4);
    let (_, end) = look(&mut watch, sample(10_000, 10_000), |step| match step {
        RoundStep::Validate => RoundReply::Valid(false),
        other => recorded(other),
    });
    assert_eq!(end, Err("invalid_capacity_sample"));
    assert!(watch.projection.committed.is_some());
    let (trace, end) = look(&mut watch, sample(1, 1), recorded);
    assert_eq!(end, Ok(()));
    assert!(matches!(trace[2], RoundStep::AppendTransition(_)));
    let error = RuntimeHostError::fatal("ledger", "append", RuntimeErrorCode::LedgerFailure);
    let (_, end) = look(&mut watch, sample(10_000, 10_000), |step| match step {
        RoundStep::AppendSummary => RoundReply::Failed(error),
        other => recorded(other),
    });
    assert_eq!(end, Err("ledger"));
    assert!(watch.projection.committed.is_none());
}

#[test]
fn room_is_watched_only_against_valid_thresholds() {
    check_capacity_thresholds(true).expect("valid");
    assert_eq!(
        check_capacity_thresholds(false).expect_err("invalid").code(),
        "invalid_capacity_thresholds"
    );
}
