//! Behaviour of the performance monitor on concrete samples and signals.

use runtime_host::performance::config::{PerformanceMonitorConfig, MAX_OWNED_PROCESS_COUNT};
use runtime_host::performance::measure::percentile_95;
use runtime_host::performance::monitor::{
    EventSeverity, PerformanceMonitor, PerformanceSemanticEvent, PerformanceTick, SampleSource,
};
use runtime_host::period::Period;
use runtime_host::performance::sample::{
    pipeline_metrics, PerformanceMetric, PerformanceMonitorHealth, RawSystemSample,
};
use runtime_host::performance::signal::{
    PipelineEventObservation, PipelineEventType, PipelinePerformanceSignal,
};
use std::collections::VecDeque;

fn sample(at: u64, cpu: u16) -> RawSystemSample {
    RawSystemSample {
        observed_at_unix_ms: at,
        cpu_total_basis_points: cpu,
        cpu_per_core_basis_points: vec![cpu],
        ram_used_basis_points: 4_000,
        disk_queue_depth_milli: Some(500),
        disk_latency_micros: Some(1_000),
        gpu_basis_points: None,
        foreground: None,
        owned_processes: Vec::new(),
        third_party_high_load: Vec::new(),
        unavailable_metrics: vec![PerformanceMetric::Gpu, PerformanceMetric::ForegroundProcess],
    }
}

struct Scripted {
    monitor: PerformanceMonitor,
    samples: VecDeque<Result<RawSystemSample, &'static str>>,
}

impl Scripted {
    fn tick(&mut self, at: u64) -> PerformanceTick {
        let sampled = match self.monitor.next_sample().expect("monitor is enabled") {
            SampleSource::Sampler => {
                self.samples.pop_front().expect("test sampler sequence is complete")
            }
            SampleSource::Failed(code) => Err(code),
            SampleSource::Stopped => Err("unused"),
        };
        self.monitor.tick(at, sampled).expect("tick")
    }
}

fn configured(
    config: PerformanceMonitorConfig,
    samples: Vec<Result<RawSystemSample, &'static str>>,
) -> Scripted {
    Scripted {
        monitor: PerformanceMonitor::enabled(config, 4_242, Ok(())).expect("monitor"),
        samples: samples.into(),
    }
}

fn monitor(samples: Vec<Result<RawSystemSample, &'static str>>) -> Scripted {
    configured(PerformanceMonitorConfig::default(), samples)
}

fn signal(at: u64, gap: u64) -> PipelinePerformanceSignal {
    PipelinePerformanceSignal::new("fixture-instance".to_owned(), at, gap).expect("signal")
}

#[test]
fn deterministic_pressure_counter_starts_and_ends_once() {
    let mut monitor = monitor(vec![
        Ok(sample(1_000, 9_000)),
        Ok(sample(3_000, 9_100)),
        Ok(sample(5_000, 6_000)),
    ]);
    let first = monitor.tick(1_000);
    let second = monitor.tick(3_000);
    let third = monitor.tick(5_000);
    assert_eq!(
        first
            .events
            .iter()
            .filter(|event| matches!(event, PerformanceSemanticEvent::PressureStarted(_)))
            .count(),
        1
    );
    assert!(!second.events.iter().any(|event| matches!(
        event,
        PerformanceSemanticEvent::PressureStarted(_) | PerformanceSemanticEvent::PressureEnded(_)
    )));
    assert_eq!(
        third
            .events
            .iter()
            .filter(|event| matches!(event, PerformanceSemanticEvent::PressureEnded(_)))
            .count(),
        1
    );
}

#[test]
fn owned_process_registry_includes_runtime_within_the_declared_bound() {
    let mut config = PerformanceMonitorConfig::default();
    for offset in 0..MAX_OWNED_PROCESS_COUNT {
        config = config.with_owned_process(
            u32::MAX - u32::try_from(offset).expect("bounded offset"),
            format!("owned-{offset}"),
        );
    }
    let error = match PerformanceMonitor::enabled(config, 4_242, Ok(())) {
        Ok(_) => panic!("runtime PID must not overflow the owned-process registry"),
        Err(error) => error,
    };
    assert_eq!(error.code(), "performance_config_invalid");
}

#[test]
fn pressure_injection_and_pipeline_stutter_enter_failure_context() {
    let mut scripted = monitor(vec![Ok(sample(30_000, 9_500))]);
    let pressure = scripted.tick(30_000);
    let monitor = &mut scripted.monitor;
    let event_id = 77_u128;
    monitor
        .record_event_reference(&pressure.events[0], event_id)
        .expect("event reference");
    let signal = signal(31_000, 1_500)
        .with_capture_latency(900)
        .expect("capture")
        .with_recognition_latency(700)
        .expect("recognition")
        .with_action_effect_latency(800)
        .expect("action");
    let events = monitor.record_pipeline_signal(signal).expect("record");
    assert!(matches!(events.as_slice(), [PerformanceSemanticEvent::StutterDetected(_)]));
    let context = monitor.context("fixture-instance", 31_000).expect("context");
    assert!(context.pressure_observed());
    assert_eq!(context.max_frame_gap_ms, Some(1_500));
    assert_eq!(context.max_capture_latency_ms, Some(900));
    assert_eq!(context.max_recognition_latency_ms, Some(700));
    assert_eq!(context.max_action_effect_latency_ms, Some(800));
    assert_eq!(context.related_event_ids, vec![event_id]);
}

#[test]
fn pipeline_probes_synthesize_responsiveness_without_faking_missing_samples() {
    let mut empty = monitor(Vec::new()).monitor;
    assert_eq!(empty.control_observation(1_000).expect("empty observation"), None);

    let mut scripted = monitor(vec![Ok(sample(1_000, 4_000))]);
    scripted.tick(1_000);
    let monitor = &mut scripted.monitor;
    monitor
        .record_pipeline_signal(signal(1_500, 2_000).with_capture_latency(1_000).expect("capture"))
        .expect("pipeline sample");
    let observation = monitor
        .control_observation(1_500)
        .expect("observation")
        .expect("measured observation");
    assert_eq!(observation.observed_at_unix_ms, 1_500);
    assert_eq!(observation.host_responsiveness_basis_points, Some(5_000));
    assert_eq!(observation.third_party_pressure_basis_points, Some(0));
    assert_eq!(monitor.control_observation(1_600).expect("consumed observation"), None);
}

#[test]
fn incomplete_process_coverage_propagates_unknown_third_party_pressure() {
    let mut denied_heavy = sample(1_000, 4_000);
    denied_heavy.unavailable_metrics.extend([
        PerformanceMetric::ProcessCpu,
        PerformanceMetric::ProcessRam,
        PerformanceMetric::ProcessIo,
    ]);
    let mut scripted = monitor(vec![Ok(denied_heavy)]);
    scripted.tick(1_000);
    let monitor = &mut scripted.monitor;
    monitor.record_pipeline_signal(signal(1_500, 2_000)).expect("pipeline sample");
    let observation = monitor
        .control_observation(1_500)
        .expect("observation")
        .expect("responsiveness observation");
    assert_eq!(observation.host_responsiveness_basis_points, Some(5_000));
    assert_eq!(observation.third_party_pressure_basis_points, None);
}

#[test]
fn sampler_failures_do_not_relabel_old_control_evidence_as_fresh() {
    let mut scripted = monitor(vec![
        Ok(sample(1_000, 4_000)),
        Err("performance_counter_failed"),
        Err("performance_counter_failed"),
    ]);
    scripted.tick(1_000);
    scripted.monitor.record_pipeline_signal(signal(1_500, 2_000)).expect("pipeline sample");
    assert_eq!(
        scripted
            .monitor
            .control_observation(1_500)
            .expect("fresh observation")
            .expect("fresh observation")
            .observed_at_unix_ms,
        1_500
    );
    scripted.tick(3_000);
    assert_eq!(
        scripted.monitor.control_observation(3_000).expect("first degraded observation"),
        None
    );
    scripted.tick(5_000);
    assert_eq!(
        scripted.monitor.control_observation(5_000).expect("second degraded observation"),
        None
    );
}

fn event(
    event_type: PipelineEventType,
    at: u64,
    frame: Option<u128>,
    recognition: Option<u128>,
    action: Option<u128>,
) -> PipelineEventObservation {
    PipelineEventObservation {
        event_type,
        instance_id: "fixture-instance".to_owned(),
        observed_at_unix_ms: at,
        frame_id: frame,
        recognition_id: recognition,
        action_id: action,
    }
}

#[test]
fn typed_pipeline_events_collect_capture_recognition_and_effect_latency() {
    let mut monitor = monitor(Vec::new()).monitor;
    let first_frame = Some(1_u128);
    let second_frame = Some(2_u128);
    let recognition_id = Some(3_u128);
    let action_id = Some(4_u128);
    for observation in [
        event(PipelineEventType::CaptureRequested, 1_000, first_frame, None, None),
        event(PipelineEventType::CaptureCompleted, 1_100, first_frame, None, None),
        event(PipelineEventType::CaptureRequested, 1_200, second_frame, None, None),
    ] {
        assert!(monitor.observe_pipeline_event(observation).expect("pipeline event").is_empty());
    }
    let capture_events = monitor
        .observe_pipeline_event(event(
            PipelineEventType::CaptureCompleted,
            2_500,
            second_frame,
            None,
            None,
        ))
        .expect("capture complete");
    assert!(matches!(
        capture_events.as_slice(),
        [PerformanceSemanticEvent::StutterDetected(_)]
    ));
    for observation in [
        event(PipelineEventType::RecognitionRequested, 2_600, second_frame, recognition_id, None),
        event(PipelineEventType::RecognitionCompleted, 3_000, second_frame, recognition_id, None),
        event(PipelineEventType::TaskEffectIntent, 3_100, second_frame, None, action_id),
        event(PipelineEventType::TaskEffectCompleted, 3_300, second_frame, None, action_id),
    ] {
        assert!(monitor.observe_pipeline_event(observation).expect("pipeline event").is_empty());
    }
    let context = monitor.context("fixture-instance", 3_300).expect("pipeline context");
    assert_eq!(context.health, PerformanceMonitorHealth::Unavailable);
    assert_eq!(context.max_frame_gap_ms, Some(1_400));
    assert_eq!(context.max_capture_latency_ms, Some(1_300));
    assert_eq!(context.max_recognition_latency_ms, Some(400));
    assert_eq!(context.max_action_effect_latency_ms, Some(200));
}

#[test]
fn raw_buffers_never_exceed_declared_bounds() {
    let config = PerformanceMonitorConfig {
        max_system_samples: 3,
        max_pipeline_samples: 2,
        ..PerformanceMonitorConfig::default()
    };
    let samples = (1..=6).map(|index| Ok(sample(index * 1_000, 1_000))).collect::<Vec<_>>();
    let mut scripted = configured(config, samples);
    for index in 1..=6 {
        scripted.tick(index * 1_000);
    }
    for index in 1..=4 {
        scripted.monitor.record_pipeline_signal(signal(index * 1_000, 100)).expect("record");
    }
    assert_eq!(scripted.monitor.system_samples.len(), 3);
    assert_eq!(scripted.monitor.pipeline_samples.len(), 2);
}

#[test]
fn out_of_order_pipeline_signal_fails_without_mutating_the_ring() {
    let mut monitor = monitor(Vec::new()).monitor;
    monitor.record_pipeline_signal(signal(2_000, 100)).expect("first signal");
    let error = monitor
        .record_pipeline_signal(signal(1_000, 100))
        .expect_err("out-of-order signal");
    assert_eq!(error.code(), "performance_pipeline_time_invalid");
    assert_eq!(monitor.pipeline_samples.len(), 1);
}

#[test]
fn pipeline_monitor_failure_is_explicitly_degraded_and_related_to_the_trigger() {
    let mut monitor = monitor(Vec::new()).monitor;
    let event_id = 9_u128;
    let error = monitor
        .observe_pipeline_event(event(
            PipelineEventType::CaptureCompleted,
            2_000,
            Some(5),
            None,
            None,
        ))
        .expect_err("missing capture start");
    let degraded = monitor
        .record_monitor_failure(2_000, error.code(), Some(event_id))
        .expect("degraded monitor");
    assert!(matches!(
        degraded.events.as_slice(),
        [PerformanceSemanticEvent::MonitorDegraded(data)]
            if data.failure_code.as_deref() == Some("performance_pipeline_start_missing")
                && data.unavailable_metrics == pipeline_metrics()
    ));
    let context = monitor.context("fixture-instance", 2_000).expect("degraded context");
    assert_eq!(context.health, PerformanceMonitorHealth::Unavailable);
    assert_eq!(context.related_event_ids, vec![event_id]);
    assert!(!context.pressure_observed());
}

#[test]
fn pipeline_monitor_recovers_only_after_a_successful_observation() {
    let mut scripted = monitor(vec![Ok(sample(1_000, 2_000))]);
    scripted.tick(1_000);
    let monitor = &mut scripted.monitor;
    let degraded = monitor
        .record_monitor_failure(2_000, "performance_pipeline_start_missing", None)
        .expect("degraded monitor");
    assert!(matches!(
        degraded.events.as_slice(),
        [PerformanceSemanticEvent::MonitorDegraded(_)]
    ));
    let recovered = monitor.record_pipeline_success(2_100).expect("recovered monitor");
    assert!(matches!(
        recovered.as_slice(),
        [PerformanceSemanticEvent::MonitorRecovered(data)]
            if data.health == PerformanceMonitorHealth::Partial
    ));
}

#[test]
fn repeated_sampler_failure_degrades_then_stops_bounded_sampling() {
    let mut scripted = monitor(vec![
        Err("performance_counter_failed"),
        Err("performance_counter_failed"),
        Err("performance_counter_failed"),
    ]);
    let first = scripted.tick(1_000);
    let second = scripted.tick(3_000);
    let third = scripted.tick(5_000);
    assert!(matches!(
        first.events.as_slice(),
        [PerformanceSemanticEvent::MonitorDegraded(_)]
    ));
    assert_eq!(first.events[0].severity(), EventSeverity::Warning);
    assert!(second.events.is_empty());
    assert!(third.stop_sampling);
    assert!(matches!(
        third.events.as_slice(),
        [PerformanceSemanticEvent::MonitorDegraded(data)] if data.terminal
    ));
    assert_eq!(third.events[0].severity(), EventSeverity::Error);
    let stopped = scripted.tick(7_000);
    assert!(stopped.stop_sampling);
    assert!(stopped.events.is_empty());
    let monitor = &mut scripted.monitor;
    monitor
        .record_pipeline_signal(signal(7_000, 1_500))
        .expect("pipeline collection remains available");
    let context = monitor.context("fixture-instance", 5_000).expect("context");
    assert_eq!(context.health, PerformanceMonitorHealth::Unavailable);
    assert!(!context.pressure_observed());
    let pipeline_context = monitor.context("fixture-instance", 7_000).expect("pipeline context");
    assert_eq!(pipeline_context.max_frame_gap_ms, Some(1_500));
}

#[test]
fn the_95th_percentile_puts_its_numbers_in_order() {
    let mut few = vec![3, 1, 2];
    assert_eq!(percentile_95(&mut few), Some(3));
    assert_eq!(few, vec![1, 2, 3]);
    let mut many: Vec<u64> = (1..=100).rev().collect();
    assert_eq!(percentile_95(&mut many), Some(95));
    assert_eq!(many, (1..=100).collect::<Vec<u64>>());
    assert_eq!(percentile_95(&mut Vec::new()), None);
}

#[test]
fn the_runtime_keeps_the_labels_of_owned_processes() {
    let config = || PerformanceMonitorConfig::default().with_owned_process(7, "other".to_owned());
    let monitor = PerformanceMonitor::enabled(config(), 9, Ok(())).expect("monitor");
    let owned = &monitor.config.as_ref().expect("config").owned_processes;
    assert_eq!(owned.get(&7).map(String::as_str), Some("other"));
    assert_eq!(owned.get(&9).map(String::as_str), Some("actingcommand-runtime"));
    let relabelled = PerformanceMonitor::enabled(config(), 7, Ok(())).expect("monitor");
    let owned = &relabelled.config.as_ref().expect("config").owned_processes;
    assert_eq!(owned.get(&7).map(String::as_str), Some("other"));
    assert_eq!(
        PerformanceMonitor::enabled(config(), 0, Ok(())).err().expect("no process").code(),
        "performance_config_invalid"
    );
}

#[test]
fn the_sample_interval_is_between_one_second_and_five() {
    let config = |nanos: u128| PerformanceMonitorConfig {
        sample_interval: Period::from_nanos(nanos),
        ..PerformanceMonitorConfig::default()
    };
    config(1_000_000_000).validate().expect("one second");
    config(5_000_000_000).validate().expect("five seconds");
    assert!(config(999_999_999).validate().is_err());
    assert!(config(5_000_000_001).validate().is_err());
    assert_eq!(config(1_500_000_000).sample_interval(), Period::from_millis(1_500));
}
