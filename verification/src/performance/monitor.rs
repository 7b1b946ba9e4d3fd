//! The monitor: bounded buffers of samples, the pressures that are active,
//! and the context of a failure drawn from them.

use std::collections::VecDeque;
use vstd::prelude::*;
use vstd::string::StringExecFns;

use crate::error::RuntimeHostResult;
use crate::ids::{copy_ids, lists_in_order};
use crate::ordered_map::{lemma_keys_are_domain, OrderedMap};
use crate::performance::config::{
    performance_error, process_label_valid, PerformanceMonitorConfig, PerformanceThresholds,
    MAX_OWNED_PROCESS_COUNT,
};
use crate::performance::measure::{gathered, largest, lemma_largest, percentile, window_start};
use crate::performance::pressure::{
    keeps_up, law_load_decides_the_pressure, law_starting_keeps_up,
    law_window_records_its_pressures, load_lasts, load_starts, measured, one_or_none, peak_of,
    severity_of, started_record, starts, starts_in_window, summarized_pressure,
    PerformancePressureKind, PerformancePressureRecord, PerformancePressureSeverity,
    PerformancePressureValue, PressureRecords,
};
use crate::performance::sample::{
    all_metrics, copy_metrics, host_metric_list, pipeline_metric_list, MetricSet,
    PerformanceForegroundSummary, PerformanceMetric, PerformanceMonitorHealth,
    PerformanceProcessSummary, RawSystemSample,
};
use crate::performance::signal::{PendingPipelineMeasurement, PipelinePerformanceSignal, Starts};
use crate::performance_control::{
    ControlEventView, PerformanceControlEventData, PerformanceControlLevel,
    PerformanceDeadlineDisposition,
};
use crate::period::Period;
use crate::text::{optional_text, utf8};

verus! {

/// How many related events a context names at most.
pub const MAX_RELATED_EVENTS: usize = 128;

/// How many of the latest signals the control looks at.
pub const CONTROL_SIGNALS: usize = 64;

#[derive(Debug, Clone, Copy, PartialEq, Eq, Structural)]
pub struct PerformancePressureEventData {
    pub observed_at_unix_ms: u64,
    pub pressure: PerformancePressureRecord,
}

#[derive(Debug, Clone)]
pub struct PerformanceStutterEventData {
    pub instance_id: String,
    pub observed_at_unix_ms: u64,
    pub frame_gap_ms: u64,
    pub capture_latency_ms: Option<u64>,
    pub recognition_latency_ms: Option<u64>,
    pub action_effect_latency_ms: Option<u64>,
}

#[derive(Debug, Clone)]
pub struct PerformanceMonitorStateEventData {
    pub observed_at_unix_ms: u64,
    pub health: PerformanceMonitorHealth,
    pub failure_code: Option<String>,
    pub consecutive_failures: u16,
    pub terminal: bool,
    pub unavailable_metrics: Vec<PerformanceMetric>,
}

/// What the monitor knows about the time before an instant.
#[derive(Debug, Clone)]
pub struct PerformanceContext {
    pub window_start_unix_ms: u64,
    pub window_end_unix_ms: u64,
    pub health: PerformanceMonitorHealth,
    pub sample_count: u32,
    pub unavailable_metrics: Vec<PerformanceMetric>,
    pub pressures: Vec<PerformancePressureRecord>,
    pub max_cpu_basis_points: Option<u64>,
    pub max_ram_basis_points: Option<u64>,
    pub disk_queue_depth_p95_milli: Option<u64>,
    pub disk_latency_p95_micros: Option<u64>,
    pub max_gpu_basis_points: Option<u64>,
    pub max_frame_gap_ms: Option<u64>,
    pub max_capture_latency_ms: Option<u64>,
    pub max_recognition_latency_ms: Option<u64>,
    pub max_action_effect_latency_ms: Option<u64>,
    pub related_event_ids: Vec<u128>,
}

/// The value of a context.
pub struct ContextView {
    pub window_start_unix_ms: u64,
    pub window_end_unix_ms: u64,
    pub health: PerformanceMonitorHealth,
    pub sample_count: int,
    pub unavailable_metrics: Seq<PerformanceMetric>,
    pub pressures: Seq<PerformancePressureRecord>,
    pub max_cpu_basis_points: Option<u64>,
    pub max_ram_basis_points: Option<u64>,
    pub disk_queue_depth_p95_milli: Option<u64>,
    pub disk_latency_p95_micros: Option<u64>,
    pub max_gpu_basis_points: Option<u64>,
    pub max_frame_gap_ms: Option<u64>,
    pub max_capture_latency_ms: Option<u64>,
    pub max_recognition_latency_ms: Option<u64>,
    pub max_action_effect_latency_ms: Option<u64>,
    pub related_event_ids: Seq<u128>,
}

impl View for PerformanceContext {
    type V = ContextView;

    open spec fn view(&self) -> ContextView {
        ContextView {
            window_start_unix_ms: self.window_start_unix_ms,
            window_end_unix_ms: self.window_end_unix_ms,
            health: self.health,
            sample_count: self.sample_count as int,
            unavailable_metrics: self.unavailable_metrics@,
            pressures: self.pressures@,
            max_cpu_basis_points: self.max_cpu_basis_points,
            max_ram_basis_points: self.max_ram_basis_points,
            disk_queue_depth_p95_milli: self.disk_queue_depth_p95_milli,
            disk_latency_p95_micros: self.disk_latency_p95_micros,
            max_gpu_basis_points: self.max_gpu_basis_points,
            max_frame_gap_ms: self.max_frame_gap_ms,
            max_capture_latency_ms: self.max_capture_latency_ms,
            max_recognition_latency_ms: self.max_recognition_latency_ms,
            max_action_effect_latency_ms: self.max_action_effect_latency_ms,
            related_event_ids: self.related_event_ids@,
        }
    }
}

/// The context when nothing is known.
pub open spec fn unavailable_context(window_end_unix_ms: u64) -> ContextView {
    ContextView {
        window_start_unix_ms: window_end_unix_ms,
        window_end_unix_ms,
        health: PerformanceMonitorHealth::Unavailable,
        sample_count: 0,
        unavailable_metrics: host_metric_list() + pipeline_metric_list(),
        pressures: Seq::empty(),
        max_cpu_basis_points: None,
        max_ram_basis_points: None,
        disk_queue_depth_p95_milli: None,
        disk_latency_p95_micros: None,
        max_gpu_basis_points: None,
        max_frame_gap_ms: None,
        max_capture_latency_ms: None,
        max_recognition_latency_ms: None,
        max_action_effect_latency_ms: None,
        related_event_ids: Seq::empty(),
    }
}

impl PerformanceContext {
    pub fn unavailable(window_end_unix_ms: u64) -> (context: Self)
        ensures
            context@ == unavailable_context(window_end_unix_ms),
    {
        PerformanceContext {
            window_start_unix_ms: window_end_unix_ms,
            window_end_unix_ms,
            health: PerformanceMonitorHealth::Unavailable,
            sample_count: 0,
            unavailable_metrics: all_metrics(),
            pressures: Vec::new(),
            max_cpu_basis_points: None,
            max_ram_basis_points: None,
            disk_queue_depth_p95_milli: None,
            disk_latency_p95_micros: None,
            max_gpu_basis_points: None,
            max_frame_gap_ms: None,
            max_capture_latency_ms: None,
            max_recognition_latency_ms: None,
            max_action_effect_latency_ms: None,
            related_event_ids: Vec::new(),
        }
    }

    /// The same context once more.
    pub fn copy(&self) -> (context: Self)
        ensures
            context@ == self@,
    {
        let mut pressures: Vec<PerformancePressureRecord> = Vec::new();
        let mut index: usize = 0;
        while index < self.pressures.len()
            invariant
                index <= self.pressures.len(),
                pressures@ == self.pressures@.take(index as int),
            decreases self.pressures.len() - index,
        {
            pressures.push(self.pressures[index]);
            index += 1;
            assert(self.pressures@.take(index as int) =~= self.pressures@.take(index - 1).push(
                self.pressures@[index - 1],
            ));
        }
        assert(self.pressures@.take(index as int) =~= self.pressures@);
        PerformanceContext {
            window_start_unix_ms: self.window_start_unix_ms,
            window_end_unix_ms: self.window_end_unix_ms,
            health: self.health,
            sample_count: self.sample_count,
            unavailable_metrics: copy_metrics(&self.unavailable_metrics),
            pressures,
            max_cpu_basis_points: self.max_cpu_basis_points,
            max_ram_basis_points: self.max_ram_basis_points,
            disk_queue_depth_p95_milli: self.disk_queue_depth_p95_milli,
            disk_latency_p95_micros: self.disk_latency_p95_micros,
            max_gpu_basis_points: self.max_gpu_basis_points,
            max_frame_gap_ms: self.max_frame_gap_ms,
            max_capture_latency_ms: self.max_capture_latency_ms,
            max_recognition_latency_ms: self.max_recognition_latency_ms,
            max_action_effect_latency_ms: self.max_action_effect_latency_ms,
            related_event_ids: copy_ids(&self.related_event_ids),
        }
    }

    /// Whether a pressure was observed in the window.
    pub fn pressure_observed(&self) -> (observed: bool)
        ensures
            observed == (self.pressures@.len() > 0),
    {
        self.pressures.len() > 0
    }
}

#[derive(Debug, Clone)]
pub struct PerformanceSummaryEventData {
    pub context: PerformanceContext,
    pub foreground: Option<PerformanceForegroundSummary>,
    pub owned_processes: Vec<PerformanceProcessSummary>,
    pub third_party_high_load: Vec<PerformanceProcessSummary>,
}

/// Something worth an event of its own.
#[derive(Debug, Clone)]
pub enum PerformanceSemanticEvent {
    PressureStarted(PerformancePressureEventData),
    PressureEnded(PerformancePressureEventData),
    StutterDetected(PerformanceStutterEventData),
    Summary(Box<PerformanceSummaryEventData>),
    MonitorDegraded(PerformanceMonitorStateEventData),
    MonitorRecovered(PerformanceMonitorStateEventData),
    BalanceChanged(PerformanceControlEventData),
}

/// The value of a stutter event.
pub struct StutterView {
    pub instance_id: Seq<char>,
    pub observed_at_unix_ms: u64,
    pub frame_gap_ms: u64,
    pub capture_latency_ms: Option<u64>,
    pub recognition_latency_ms: Option<u64>,
    pub action_effect_latency_ms: Option<u64>,
}

/// The value of a monitor state event.
pub struct MonitorStateView {
    pub observed_at_unix_ms: u64,
    pub health: PerformanceMonitorHealth,
    pub failure_code: Option<Seq<char>>,
    pub consecutive_failures: u16,
    pub terminal: bool,
    pub unavailable_metrics: Seq<PerformanceMetric>,
}

/// The value of a summary event.
pub struct SummaryView {
    pub context: ContextView,
    pub foreground: Option<PerformanceForegroundSummary>,
    pub owned_processes: Seq<PerformanceProcessSummary>,
    pub third_party_high_load: Seq<PerformanceProcessSummary>,
}

/// The value of a semantic event.
pub enum SemanticEventView {
    PressureStarted(PerformancePressureEventData),
    PressureEnded(PerformancePressureEventData),
    StutterDetected(StutterView),
    Summary(SummaryView),
    MonitorDegraded(MonitorStateView),
    MonitorRecovered(MonitorStateView),
    BalanceChanged(ControlEventView),
}

pub open spec fn state_view(data: PerformanceMonitorStateEventData) -> MonitorStateView {
    MonitorStateView {
        observed_at_unix_ms: data.observed_at_unix_ms,
        health: data.health,
        failure_code: optional_text(data.failure_code),
        consecutive_failures: data.consecutive_failures,
        terminal: data.terminal,
        unavailable_metrics: data.unavailable_metrics@,
    }
}

impl View for PerformanceSemanticEvent {
    type V = SemanticEventView;

    open spec fn view(&self) -> SemanticEventView {
        match *self {
            PerformanceSemanticEvent::PressureStarted(data) => SemanticEventView::PressureStarted(
                data,
            ),
            PerformanceSemanticEvent::PressureEnded(data) => SemanticEventView::PressureEnded(data),
            PerformanceSemanticEvent::StutterDetected(data) => SemanticEventView::StutterDetected(
                StutterView {
                    instance_id: data.instance_id@,
                    observed_at_unix_ms: data.observed_at_unix_ms,
                    frame_gap_ms: data.frame_gap_ms,
                    capture_latency_ms: data.capture_latency_ms,
                    recognition_latency_ms: data.recognition_latency_ms,
                    action_effect_latency_ms: data.action_effect_latency_ms,
                },
            ),
            PerformanceSemanticEvent::Summary(data) => SemanticEventView::Summary(
                SummaryView {
                    context: data.context@,
                    foreground: data.foreground,
                    owned_processes: data.owned_processes@,
                    third_party_high_load: data.third_party_high_load@,
                },
            ),
            PerformanceSemanticEvent::MonitorDegraded(data) => SemanticEventView::MonitorDegraded(
                state_view(data),
            ),
            PerformanceSemanticEvent::MonitorRecovered(data) => {
                SemanticEventView::MonitorRecovered(state_view(data))
            },
            PerformanceSemanticEvent::BalanceChanged(data) => SemanticEventView::BalanceChanged(
                data@,
            ),
        }
    }
}

pub open spec fn semantic_events(events: Seq<PerformanceSemanticEvent>) -> Seq<SemanticEventView> {
    events.map_values(|event: PerformanceSemanticEvent| event@)
}

#[derive(Debug, Clone, Copy, PartialEq, Eq, Structural)]
pub enum EventSeverity {
    Info,
    Warning,
    Error,
}

/// How severe an event is.
pub open spec fn event_severity(event: SemanticEventView) -> EventSeverity {
    match event {
        SemanticEventView::PressureStarted(data) => if data.pressure.severity
            == PerformancePressureSeverity::Elevated {
            EventSeverity::Warning
        } else {
            EventSeverity::Error
        },
        SemanticEventView::PressureEnded(_) => EventSeverity::Info,
        SemanticEventView::Summary(_) => EventSeverity::Info,
        SemanticEventView::MonitorRecovered(_) => EventSeverity::Info,
        SemanticEventView::MonitorDegraded(data) => if data.terminal {
            EventSeverity::Error
        } else {
            EventSeverity::Warning
        },
        SemanticEventView::StutterDetected(_) => EventSeverity::Warning,
        SemanticEventView::BalanceChanged(data) => if data.deadline_disposition == Some(
            PerformanceDeadlineDisposition::CapacityFailure,
        ) || data.level.spec_rank() >= 4 {
            EventSeverity::Error
        } else if data.recovery || data.level == PerformanceControlLevel::Normal {
            EventSeverity::Info
        } else {
            EventSeverity::Warning
        },
    }
}

/// When an event was observed.
pub open spec fn event_time(event: SemanticEventView) -> u64 {
    match event {
        SemanticEventView::PressureStarted(data) => data.observed_at_unix_ms,
        SemanticEventView::PressureEnded(data) => data.observed_at_unix_ms,
        SemanticEventView::StutterDetected(data) => data.observed_at_unix_ms,
        SemanticEventView::Summary(data) => data.context.window_end_unix_ms,
        SemanticEventView::MonitorDegraded(data) => data.observed_at_unix_ms,
        SemanticEventView::MonitorRecovered(data) => data.observed_at_unix_ms,
        SemanticEventView::BalanceChanged(data) => data.observed_at_unix_ms,
    }
}

impl PerformanceSemanticEvent {
    pub fn severity(&self) -> (severity: EventSeverity)
        ensures
            severity == event_severity(self@),
    {
        match self {
            PerformanceSemanticEvent::PressureStarted(data) => match data.pressure.severity {
                PerformancePressureSeverity::Elevated => EventSeverity::Warning,
                PerformancePressureSeverity::High => EventSeverity::Error,
                PerformancePressureSeverity::Critical => EventSeverity::Error,
            },
            PerformanceSemanticEvent::PressureEnded(_) => EventSeverity::Info,
            PerformanceSemanticEvent::Summary(_) => EventSeverity::Info,
            PerformanceSemanticEvent::MonitorRecovered(_) => EventSeverity::Info,
            PerformanceSemanticEvent::MonitorDegraded(data) => {
                if data.terminal {
                    EventSeverity::Error
                } else {
                    EventSeverity::Warning
                }
            },
            PerformanceSemanticEvent::StutterDetected(_) => EventSeverity::Warning,
            PerformanceSemanticEvent::BalanceChanged(data) => {
                let capacity = match data.deadline_disposition {
                    Some(PerformanceDeadlineDisposition::CapacityFailure) => true,
                    _ => false,
                };
                if capacity || data.level.rank() >= 4 {
                    EventSeverity::Error
                } else if data.recovery || data.level == PerformanceControlLevel::Normal {
                    EventSeverity::Info
                } else {
                    EventSeverity::Warning
                }
            },
        }
    }

    pub fn observed_at_unix_ms(&self) -> (at: u64)
        ensures
            at == event_time(self@),
    {
        match self {
            PerformanceSemanticEvent::PressureStarted(data) => data.observed_at_unix_ms,
            PerformanceSemanticEvent::PressureEnded(data) => data.observed_at_unix_ms,
            PerformanceSemanticEvent::StutterDetected(data) => data.observed_at_unix_ms,
            PerformanceSemanticEvent::Summary(data) => data.context.window_end_unix_ms,
            PerformanceSemanticEvent::MonitorDegraded(data) => data.observed_at_unix_ms,
            PerformanceSemanticEvent::MonitorRecovered(data) => data.observed_at_unix_ms,
            PerformanceSemanticEvent::BalanceChanged(data) => data.observed_at_unix_ms,
        }
    }
}

#[derive(Debug)]
pub struct PerformanceTick {
    pub events: Vec<PerformanceSemanticEvent>,
    pub stop_sampling: bool,
}

/// What failed: the sampler or the pipeline.
#[derive(Debug, Clone, Copy, PartialEq, Eq, Structural)]
pub enum MonitorFailureDomain {
    Sampler,
    Pipeline,
}

/// A pressure that goes on, and the event of its start.
#[derive(Debug, Clone, Copy, PartialEq, Eq, Structural)]
pub struct ActivePressure {
    pub record: PerformancePressureRecord,
    pub event_id: Option<u128>,
}

/// The pressures that go on.
#[derive(Debug, Clone, Copy, PartialEq, Eq, Structural)]
pub struct ActivePressures {
    pub cpu: Option<ActivePressure>,
    pub ram: Option<ActivePressure>,
    pub disk_io: Option<ActivePressure>,
    pub gpu: Option<ActivePressure>,
    pub third_party: Option<ActivePressure>,
}

impl ActivePressures {
    pub open spec fn of(self, kind: PerformancePressureKind) -> Option<ActivePressure> {
        match kind {
            PerformancePressureKind::Cpu => self.cpu,
            PerformancePressureKind::Ram => self.ram,
            PerformancePressureKind::DiskIo => self.disk_io,
            PerformancePressureKind::Gpu => self.gpu,
            PerformancePressureKind::ThirdParty => self.third_party,
        }
    }

    /// The same pressures but for one kind.
    pub open spec fn with(self, kind: PerformancePressureKind, active: Option<ActivePressure>) -> Self {
        match kind {
            PerformancePressureKind::Cpu => ActivePressures { cpu: active, ..self },
            PerformancePressureKind::Ram => ActivePressures { ram: active, ..self },
            PerformancePressureKind::DiskIo => ActivePressures { disk_io: active, ..self },
            PerformancePressureKind::Gpu => ActivePressures { gpu: active, ..self },
            PerformancePressureKind::ThirdParty => ActivePressures { third_party: active, ..self },
        }
    }

    pub open spec fn spec_none() -> Self {
        ActivePressures { cpu: None, ram: None, disk_io: None, gpu: None, third_party: None }
    }

    fn none() -> (pressures: Self)
        ensures
            pressures == ActivePressures::spec_none(),
    {
        ActivePressures { cpu: None, ram: None, disk_io: None, gpu: None, third_party: None }
    }

    fn get(&self, kind: PerformancePressureKind) -> (active: Option<ActivePressure>)
        ensures
            active == self.of(kind),
    {
        match kind {
            PerformancePressureKind::Cpu => self.cpu,
            PerformancePressureKind::Ram => self.ram,
            PerformancePressureKind::DiskIo => self.disk_io,
            PerformancePressureKind::Gpu => self.gpu,
            PerformancePressureKind::ThirdParty => self.third_party,
        }
    }

    fn set(&mut self, kind: PerformancePressureKind, active: Option<ActivePressure>)
        ensures
            *final(self) == old(self).with(kind, active),
    {
        match kind {
            PerformancePressureKind::Cpu => self.cpu = active,
            PerformancePressureKind::Ram => self.ram = active,
            PerformancePressureKind::DiskIo => self.disk_io = active,
            PerformancePressureKind::Gpu => self.gpu = active,
            PerformancePressureKind::ThirdParty => self.third_party = active,
        }
    }

    /// The events that started the pressures.
    pub open spec fn event_ids(self) -> Set<u128> {
        Set::new(
            |id: u128|
                exists|kind: PerformancePressureKind|
                    (#[trigger] self.of(kind)) matches Some(active) && active.event_id == Some(id),
        )
    }
}

/// What a measurement does to a pressure: the pressure after it, and the
/// events of its end and its start.
pub open spec fn pressure_step(
    active: Option<ActivePressure>,
    value: Option<PerformancePressureValue>,
    kind: PerformancePressureKind,
    at: u64,
    thresholds: PerformanceThresholds,
) -> (Option<ActivePressure>, Seq<SemanticEventView>) {
    if active is Some && value is Some && keeps_up(kind, value->0, thresholds) {
        (
            Some(
                ActivePressure {
                    record: PerformancePressureRecord {
                        last_observed_at_unix_ms: at,
                        severity: severity_of(kind, value->0, thresholds),
                        peak: peak_of(active->0.record.peak, value->0),
                        ..active->0.record
                    },
                    ..active->0
                },
            ),
            Seq::empty(),
        )
    } else {
        let ended = match active {
            Some(active) => seq![
                SemanticEventView::PressureEnded(
                    PerformancePressureEventData {
                        observed_at_unix_ms: at,
                        pressure: PerformancePressureRecord {
                            last_observed_at_unix_ms: at,
                            ..active.record
                        },
                    },
                ),
            ],
            None => Seq::empty(),
        };
        if value is Some && starts(kind, value->0, thresholds) {
            let record = started_record(kind, value->0, at, thresholds);
            (
                Some(ActivePressure { record, event_id: None }),
                ended.push(
                    SemanticEventView::PressureStarted(
                        PerformancePressureEventData { observed_at_unix_ms: at, pressure: record },
                    ),
                ),
            )
        } else {
            (None, ended)
        }
    }
}

/// The step that a sample makes in a kind of pressure.
pub open spec fn sample_step(
    pressures: ActivePressures,
    sample: RawSystemSample,
    kind: PerformancePressureKind,
    thresholds: PerformanceThresholds,
) -> (Option<ActivePressure>, Seq<SemanticEventView>) {
    pressure_step(
        pressures.of(kind),
        measured(sample, kind),
        kind,
        sample.observed_at_unix_ms,
        thresholds,
    )
}

/// The pressures after a sample.
pub open spec fn pressures_after(
    pressures: ActivePressures,
    sample: RawSystemSample,
    thresholds: PerformanceThresholds,
) -> ActivePressures {
    ActivePressures {
        cpu: sample_step(pressures, sample, PerformancePressureKind::Cpu, thresholds).0,
        ram: sample_step(pressures, sample, PerformancePressureKind::Ram, thresholds).0,
        disk_io: sample_step(pressures, sample, PerformancePressureKind::DiskIo, thresholds).0,
        gpu: sample_step(pressures, sample, PerformancePressureKind::Gpu, thresholds).0,
        third_party: sample_step(
            pressures,
            sample,
            PerformancePressureKind::ThirdParty,
            thresholds,
        ).0,
    }
}

/// The pressure events of a sample.
pub open spec fn pressure_events(
    pressures: ActivePressures,
    sample: RawSystemSample,
    thresholds: PerformanceThresholds,
) -> Seq<SemanticEventView> {
    sample_step(pressures, sample, PerformancePressureKind::Cpu, thresholds).1 + sample_step(
        pressures,
        sample,
        PerformancePressureKind::Ram,
        thresholds,
    ).1 + sample_step(pressures, sample, PerformancePressureKind::DiskIo, thresholds).1
        + sample_step(pressures, sample, PerformancePressureKind::Gpu, thresholds).1 + sample_step(
        pressures,
        sample,
        PerformancePressureKind::ThirdParty,
        thresholds,
    ).1
}

/// An event of the ledger that a context may refer to.
#[derive(Debug, Clone, Copy, PartialEq, Eq, Structural)]
pub struct TimedEventReference {
    pub observed_at_unix_ms: u64,
    pub event_id: u128,
}

/// Where the next sample comes from.
#[derive(Debug, Clone, Copy)]
pub enum SampleSource {
    /// Sampling has stopped.
    Stopped,
    /// There is no sample, for this reason.
    Failed(&'static str),
    /// Ask the sampler.
    Sampler,
}

#[derive(Debug)]
pub struct PerformanceMonitor {
    pub config: Option<PerformanceMonitorConfig>,
    pub sampler_available: bool,
    pub sampler_start_error: Option<&'static str>,
    pub system_samples: VecDeque<RawSystemSample>,
    pub pipeline_samples: VecDeque<PipelinePerformanceSignal>,
    pub active_pressures: ActivePressures,
    pub event_references: VecDeque<TimedEventReference>,
    pub degraded_metrics: MetricSet,
    pub capture_starts: OrderedMap<u128, PendingPipelineMeasurement>,
    pub recognition_starts: OrderedMap<u128, PendingPipelineMeasurement>,
    pub action_starts: OrderedMap<u128, PendingPipelineMeasurement>,
    pub last_capture_completed: OrderedMap<String, u64>,
    pub health: PerformanceMonitorHealth,
    pub consecutive_sampler_failures: u16,
    pub consecutive_pipeline_failures: u16,
    pub sampling_stopped: bool,
    pub pipeline_stopped: bool,
    pub last_summary_unix_ms: Option<u64>,
    pub last_control_sample_unix_ms: Option<u64>,
}

/// The value of a monitor.
pub struct MonitorView {
    pub config: Option<PerformanceMonitorConfig>,
    pub sampler_available: bool,
    pub sampler_start_error: Option<&'static str>,
    pub system_samples: Seq<RawSystemSample>,
    pub pipeline_samples: Seq<PipelinePerformanceSignal>,
    pub active_pressures: ActivePressures,
    pub event_references: Seq<TimedEventReference>,
    pub degraded_metrics: Set<PerformanceMetric>,
    pub capture_starts: Starts,
    pub recognition_starts: Starts,
    pub action_starts: Starts,
    pub last_capture_completed: Map<Seq<char>, u64>,
    pub health: PerformanceMonitorHealth,
    pub consecutive_sampler_failures: u16,
    pub consecutive_pipeline_failures: u16,
    pub sampling_stopped: bool,
    pub pipeline_stopped: bool,
    pub last_summary_unix_ms: Option<u64>,
    pub last_control_sample_unix_ms: Option<u64>,
}

impl View for PerformanceMonitor {
    type V = MonitorView;

    open spec fn view(&self) -> MonitorView {
        MonitorView {
            config: self.config,
            sampler_available: self.sampler_available,
            sampler_start_error: self.sampler_start_error,
            system_samples: self.system_samples@,
            pipeline_samples: self.pipeline_samples@,
            active_pressures: self.active_pressures,
            event_references: self.event_references@,
            degraded_metrics: self.degraded_metrics@.dom(),
            capture_starts: self.capture_starts@,
            recognition_starts: self.recognition_starts@,
            action_starts: self.action_starts@,
            last_capture_completed: self.last_capture_completed@,
            health: self.health,
            consecutive_sampler_failures: self.consecutive_sampler_failures,
            consecutive_pipeline_failures: self.consecutive_pipeline_failures,
            sampling_stopped: self.sampling_stopped,
            pipeline_stopped: self.pipeline_stopped,
            last_summary_unix_ms: self.last_summary_unix_ms,
            last_control_sample_unix_ms: self.last_control_sample_unix_ms,
        }
    }
}

/// A monitor before it saw anything.
pub open spec fn fresh_monitor(
    config: Option<PerformanceMonitorConfig>,
    sampler_available: bool,
    sampler_start_error: Option<&'static str>,
) -> MonitorView {
    MonitorView {
        config,
        sampler_available,
        sampler_start_error,
        system_samples: Seq::empty(),
        pipeline_samples: Seq::empty(),
        active_pressures: ActivePressures::spec_none(),
        event_references: Seq::empty(),
        degraded_metrics: Set::empty(),
        capture_starts: Map::empty(),
        recognition_starts: Map::empty(),
        action_starts: Map::empty(),
        last_capture_completed: Map::empty(),
        health: PerformanceMonitorHealth::Unavailable,
        consecutive_sampler_failures: 0,
        consecutive_pipeline_failures: 0,
        sampling_stopped: false,
        pipeline_stopped: false,
        last_summary_unix_ms: None,
        last_control_sample_unix_ms: None,
    }
}

/// The samples come in order, each later than the one before.
pub open spec fn samples_ordered(samples: Seq<RawSystemSample>) -> bool {
    forall|i: int, j: int|
        0 <= i < j < samples.len() ==> (#[trigger] samples[i]).observed_at_unix_ms < (
        #[trigger] samples[j]).observed_at_unix_ms
}

/// The signals come in order.
pub open spec fn signals_ordered(signals: Seq<PipelinePerformanceSignal>) -> bool {
    forall|i: int, j: int|
        0 <= i < j < signals.len() ==> (#[trigger] signals[i]).observed_at_unix_ms <= (
        #[trigger] signals[j]).observed_at_unix_ms
}

/// No buffer exceeds its bound, and what is buffered is valid and in order.
pub open spec fn within_bounds(monitor: MonitorView, config: PerformanceMonitorConfig) -> bool {
    &&& monitor.system_samples.len() <= config.max_system_samples
    &&& monitor.pipeline_samples.len() <= config.max_pipeline_samples
    &&& monitor.event_references.len() <= config.max_event_references
    &&& monitor.capture_starts.len() <= config.max_pipeline_samples
    &&& monitor.recognition_starts.len() <= config.max_pipeline_samples
    &&& monitor.action_starts.len() <= config.max_pipeline_samples
    &&& samples_ordered(monitor.system_samples)
    &&& signals_ordered(monitor.pipeline_samples)
    &&& forall|i: int|
        0 <= i < monitor.system_samples.len() ==> (#[trigger] monitor.system_samples[i]).valid(
            config.top_process_count,
        )
}

/// An instant lies in a window.
pub open spec fn in_window(at: u64, from: u64, to: u64) -> bool {
    from <= at <= to
}

/// Where the window of a context begins.
pub open spec fn context_start(config: PerformanceMonitorConfig, window_end: u64) -> u64 {
    let start = window_start(window_end, config.context_window.millis as u64);
    if start >= 1 {
        start
    } else {
        1
    }
}

/// A number of a sample in a window.
pub open spec fn in_samples(
    from: u64,
    to: u64,
    value: spec_fn(RawSystemSample) -> Option<u64>,
) -> spec_fn(RawSystemSample) -> Option<u64> {
    |sample: RawSystemSample|
        if in_window(sample.observed_at_unix_ms, from, to) {
            value(sample)
        } else {
            None
        }
}

pub open spec fn cpu_share() -> spec_fn(RawSystemSample) -> Option<u64> {
    |sample: RawSystemSample| Some(sample.cpu_total_basis_points as u64)
}

pub open spec fn ram_share() -> spec_fn(RawSystemSample) -> Option<u64> {
    |sample: RawSystemSample| Some(sample.ram_used_basis_points as u64)
}

pub open spec fn gpu_share() -> spec_fn(RawSystemSample) -> Option<u64> {
    |sample: RawSystemSample|
        match sample.gpu_basis_points {
            Some(value) => Some(value as u64),
            None => None,
        }
}

pub open spec fn disk_queue() -> spec_fn(RawSystemSample) -> Option<u64> {
    |sample: RawSystemSample|
        match sample.disk_queue_depth_milli {
            Some(value) => Some(value as u64),
            None => None,
        }
}

pub open spec fn disk_latency() -> spec_fn(RawSystemSample) -> Option<u64> {
    |sample: RawSystemSample| sample.disk_latency_micros
}

/// A signal of an instance in a window.
pub open spec fn signal_counts(
    signal: PipelinePerformanceSignal,
    instance_id: Seq<char>,
    from: u64,
    to: u64,
) -> bool {
    signal.instance_id@ == instance_id && in_window(signal.observed_at_unix_ms, from, to)
}

/// A number of an instance's signal in a window.
pub open spec fn in_signals(
    instance_id: Seq<char>,
    from: u64,
    to: u64,
    value: spec_fn(PipelinePerformanceSignal) -> Option<u64>,
) -> spec_fn(PipelinePerformanceSignal) -> Option<u64> {
    |signal: PipelinePerformanceSignal|
        if signal_counts(signal, instance_id, from, to) {
            value(signal)
        } else {
            None
        }
}

pub open spec fn frame_gap() -> spec_fn(PipelinePerformanceSignal) -> Option<u64> {
    |signal: PipelinePerformanceSignal| signal.frame_gap_ms
}

pub open spec fn capture_latency() -> spec_fn(PipelinePerformanceSignal) -> Option<u64> {
    |signal: PipelinePerformanceSignal| signal.capture_latency_ms
}

pub open spec fn recognition_latency() -> spec_fn(PipelinePerformanceSignal) -> Option<u64> {
    |signal: PipelinePerformanceSignal| signal.recognition_latency_ms
}

pub open spec fn action_effect_latency() -> spec_fn(PipelinePerformanceSignal) -> Option<u64> {
    |signal: PipelinePerformanceSignal| signal.action_effect_latency_ms
}

/// How many samples lie in a window.
pub open spec fn samples_in_window(samples: Seq<RawSystemSample>, from: u64, to: u64) -> nat
    decreases samples.len(),
{
    if samples.len() == 0 {
        0
    } else {
        samples_in_window(samples.drop_last(), from, to) + if in_window(
            samples.last().observed_at_unix_ms,
            from,
            to,
        ) {
            1nat
        } else {
            0
        }
    }
}

/// Some signal of an instance lies in a window.
pub open spec fn any_signal(
    signals: Seq<PipelinePerformanceSignal>,
    instance_id: Seq<char>,
    from: u64,
    to: u64,
) -> bool {
    exists|i: int|
        0 <= i < signals.len() && signal_counts(#[trigger] signals[i], instance_id, from, to)
}

/// The events a context may refer to: those in the window, and those that
/// started a pressure that goes on.
pub open spec fn related_events(monitor: MonitorView, from: u64, to: u64) -> Set<u128> {
    Set::new(
        |id: u128|
            (exists|i: int|
                0 <= i < monitor.event_references.len() && in_window(
                    (#[trigger] monitor.event_references[i]).observed_at_unix_ms,
                    from,
                    to,
                ) && monitor.event_references[i].event_id == id)
                || monitor.active_pressures.event_ids().contains(id),
    )
}

/// The members of a set in increasing order, at most so many of them.
pub open spec fn is_first_members(ids: Seq<u128>, members: Set<u128>, maximum: int) -> bool {
    exists|listing: Seq<u128>| #[trigger]
        lists_in_order(listing, members) && ids == listing.take(
            if listing.len() <= maximum {
                listing.len() as int
            } else {
                maximum
            },
        )
}

/// A metric that some sample of a window lacks, or that the monitor lost.
pub open spec fn metric_unavailable(
    monitor: MonitorView,
    from: u64,
    to: u64,
    metric: PerformanceMetric,
) -> bool {
    monitor.degraded_metrics.contains(metric) || exists|i: int|
        0 <= i < monitor.system_samples.len() && in_window(
            (#[trigger] monitor.system_samples[i]).observed_at_unix_ms,
            from,
            to,
        ) && monitor.system_samples[i].unavailable_metrics@.contains(metric)
}

/// The metrics that are unavailable in a window, in order.
pub open spec fn unavailable_in_window(monitor: MonitorView, from: u64, to: u64) -> Seq<
    PerformanceMetric,
> {
    if samples_in_window(monitor.system_samples, from, to) == 0 {
        host_metric_list() + pipeline_metric_list()
    } else {
        (host_metric_list() + pipeline_metric_list()).filter(
            |metric: PerformanceMetric| metric_unavailable(monitor, from, to, metric),
        )
    }
}

/// The health that a context shows.
pub open spec fn context_health(monitor: MonitorView, from: u64, to: u64) ->
    PerformanceMonitorHealth {
    if samples_in_window(monitor.system_samples, from, to) == 0 {
        PerformanceMonitorHealth::Unavailable
    } else if monitor.health == PerformanceMonitorHealth::Degraded {
        PerformanceMonitorHealth::Degraded
    } else if unavailable_in_window(monitor, from, to).len() == 0 {
        PerformanceMonitorHealth::Healthy
    } else {
        PerformanceMonitorHealth::Partial
    }
}

/// The records of the pressures in a window, in the order of their kinds.
pub open spec fn pressures_in_window(
    samples: Seq<RawSystemSample>,
    from: u64,
    to: u64,
    thresholds: PerformanceThresholds,
) -> Seq<PerformancePressureRecord> {
    (PressureRecords {
        cpu: summarized_pressure(samples, from, to, PerformancePressureKind::Cpu, thresholds),
        ram: summarized_pressure(samples, from, to, PerformancePressureKind::Ram, thresholds),
        disk_io: summarized_pressure(
            samples,
            from,
            to,
            PerformancePressureKind::DiskIo,
            thresholds,
        ),
        gpu: summarized_pressure(samples, from, to, PerformancePressureKind::Gpu, thresholds),
        third_party: summarized_pressure(
            samples,
            from,
            to,
            PerformancePressureKind::ThirdParty,
            thresholds,
        ),
    }).listed()
}

/// The context of an instance before an instant.
pub open spec fn is_context(
    context: ContextView,
    monitor: MonitorView,
    instance_id: Seq<char>,
    window_end: u64,
) -> bool {
    match monitor.config {
        None => context == unavailable_context(window_end),
        Some(config) => {
            let from = context_start(config, window_end);
            let to = window_end;
            let samples = monitor.system_samples;
            let signals = monitor.pipeline_samples;
            let related = related_events(monitor, from, to);
            if samples_in_window(samples, from, to) == 0 && !any_signal(
                signals,
                instance_id,
                from,
                to,
            ) && related == Set::<u128>::empty() {
                context == unavailable_context(window_end)
            } else {
                &&& context.window_start_unix_ms == from
                &&& context.window_end_unix_ms == to
                &&& context.health == context_health(monitor, from, to)
                &&& context.sample_count == samples_in_window(samples, from, to)
                &&& context.unavailable_metrics == unavailable_in_window(monitor, from, to)
                &&& context.pressures == pressures_in_window(samples, from, to, config.thresholds)
                &&& context.max_cpu_basis_points == largest(
                    samples,
                    in_samples(from, to, cpu_share()),
                )
                &&& context.max_ram_basis_points == largest(
                    samples,
                    in_samples(from, to, ram_share()),
                )
                &&& context.disk_queue_depth_p95_milli == percentile(
                    gathered(samples, in_samples(from, to, disk_queue())),
                )
                &&& context.disk_latency_p95_micros == percentile(
                    gathered(samples, in_samples(from, to, disk_latency())),
                )
                &&& context.max_gpu_basis_points == largest(
                    samples,
                    in_samples(from, to, gpu_share()),
                )
                &&& context.max_frame_gap_ms == largest(
                    signals,
                    in_signals(instance_id, from, to, frame_gap()),
                )
                &&& context.max_capture_latency_ms == largest(
                    signals,
                    in_signals(instance_id, from, to, capture_latency()),
                )
                &&& context.max_recognition_latency_ms == largest(
                    signals,
                    in_signals(instance_id, from, to, recognition_latency()),
                )
                &&& context.max_action_effect_latency_ms == largest(
                    signals,
                    in_signals(instance_id, from, to, action_effect_latency()),
                )
                &&& is_first_members(context.related_event_ids, related, MAX_RELATED_EVENTS as int)
            }
        },
    }
}

/// A configuration with the runtime's own process among the owned ones: every
/// earlier label stays, and a process that had none gets the runtime's.
pub open spec fn is_runtime_config(
    own: PerformanceMonitorConfig,
    given: PerformanceMonitorConfig,
    pid: u32,
) -> bool {
    &&& own.valid()
    &&& own.same_bounds(&given)
    &&& own.owned_processes@.dom() == given.owned_processes@.dom().insert(pid)
    &&& forall|other: u32| #[trigger]
        given.owned_processes@.contains_key(other) ==> own.owned_processes@[other]
            == given.owned_processes@[other]
    &&& !given.owned_processes@.contains_key(pid) ==> own.owned_processes@[pid]@
        == "actingcommand-runtime"@
}

impl PerformanceMonitor {
    pub open spec fn wf(&self) -> bool {
        &&& self.degraded_metrics.wf()
        &&& self.capture_starts.wf()
        &&& self.recognition_starts.wf()
        &&& self.action_starts.wf()
        &&& self.last_capture_completed.wf()
        &&& self.config matches Some(config) ==> config.wf() && config.valid() && within_bounds(
            self@,
            config,
        )
    }

    /// A monitor that watches nothing.
    pub fn disabled() -> (monitor: Self)
        ensures
            monitor.wf(),
            monitor@ == fresh_monitor(None, false, None),
    {
        PerformanceMonitor::fresh(None, false, None)
    }

    /// A monitor with a sampler, or with the reason why it has none. The
    /// runtime's own process, `pid`, counts among the owned ones.
    pub fn enabled(
        config: PerformanceMonitorConfig,
        pid: u32,
        sampler: Result<(), &'static str>,
    ) -> (result: RuntimeHostResult<Self>)
        requires
            config.wf(),
        ensures
            if !config.bounds_valid() || (!config.owned_processes@.contains_key(pid) && (pid == 0
                || config.owned_processes@.len() >= MAX_OWNED_PROCESS_COUNT)) {
                result matches Err(error) && error == performance_error(
                    "performance_config_invalid",
                    "validate_performance_config",
                )
            } else if !config.thresholds.valid() {
                result matches Err(error) && error == performance_error(
                    "performance_threshold_invalid",
                    "validate_performance_config",
                )
            } else {
                &&& result is Ok
                &&& result->Ok_0.wf()
                &&& result->Ok_0.config is Some
                &&& is_runtime_config(result->Ok_0.config->0, config, pid)
                &&& result->Ok_0@ == fresh_monitor(
                    result->Ok_0.config,
                    sampler is Ok,
                    match sampler {
                        Ok(_) => None,
                        Err(code) => Some(code),
                    },
                )
            },
    {
        let ghost before = config;
        let config = config.with_runtime_process(pid);
        proof {
            lemma_runtime_process(before, config, pid);
        }
        config.validate()?;
        let (available, start_error) = match sampler {
            Ok(_) => (true, None),
            Err(code) => (false, Some(code)),
        };
        Ok(PerformanceMonitor::fresh(Some(config), available, start_error))
    }

    fn fresh(
        config: Option<PerformanceMonitorConfig>,
        sampler_available: bool,
        sampler_start_error: Option<&'static str>,
    ) -> (monitor: Self)
        requires
            config matches Some(config) ==> config.wf() && config.valid(),
        ensures
            monitor.wf(),
            monitor@ == fresh_monitor(config, sampler_available, sampler_start_error),
    {
        let monitor = PerformanceMonitor {
            config,
            sampler_available,
            sampler_start_error,
            system_samples: VecDeque::new(),
            pipeline_samples: VecDeque::new(),
            active_pressures: ActivePressures::none(),
            event_references: VecDeque::new(),
            degraded_metrics: OrderedMap::new(),
            capture_starts: OrderedMap::new(),
            recognition_starts: OrderedMap::new(),
            action_starts: OrderedMap::new(),
            last_capture_completed: OrderedMap::new(),
            health: PerformanceMonitorHealth::Unavailable,
            consecutive_sampler_failures: 0,
            consecutive_pipeline_failures: 0,
            sampling_stopped: false,
            pipeline_stopped: false,
            last_summary_unix_ms: None,
            last_control_sample_unix_ms: None,
        };
        assert(monitor@.degraded_metrics =~= Set::empty());
        monitor
    }

    /// The time between two samples.
    pub fn sample_interval(&self) -> (interval: Option<Period>)
        ensures
            interval == match self.config {
                Some(config) => Some(config.sample_interval),
                None => None,
            },
    {
        match &self.config {
            Some(config) => Some(config.sample_interval),
            None => None,
        }
    }

    pub fn accepts_pipeline_events(&self) -> (accepts: bool)
        ensures
            accepts == (self.config is Some && !self.pipeline_stopped),
    {
        self.config.is_some() && !self.pipeline_stopped
    }
}

proof fn lemma_runtime_process(
    before: PerformanceMonitorConfig,
    after: PerformanceMonitorConfig,
    pid: u32,
)
    requires
        before.wf(),
        after.wf(),
        after.same_bounds(&before),
        before.owned_processes@.contains_key(pid) ==> after.owned_processes@
            == before.owned_processes@,
        !before.owned_processes@.contains_key(pid) ==> {
            &&& after.owned_processes@.dom() == before.owned_processes@.dom().insert(pid)
            &&& after.owned_processes@[pid]@ == "actingcommand-runtime"@
            &&& forall|other: u32| #[trigger]
                before.owned_processes@.contains_key(other) ==> after.owned_processes@[other]
                    == before.owned_processes@[other]
        },
    ensures
        after.owned_processes@.dom() == before.owned_processes@.dom().insert(pid),
        before.owned_processes@.contains_key(pid) ==> after.bounds_valid() == before.bounds_valid(),
        before.bounds_valid() && pid > 0 && before.owned_processes@.len() < 32
            ==> after.bounds_valid(),
        !before.bounds_valid() ==> !after.bounds_valid(),
        !before.owned_processes@.contains_key(pid) && (pid == 0 || before.owned_processes@.len()
            >= 32) ==> !after.bounds_valid(),
{
    let old_map = before.owned_processes@;
    let new_map = after.owned_processes@;
    lemma_keys_are_domain(before.owned_processes);
    lemma_keys_are_domain(after.owned_processes);
    if old_map.contains_key(pid) {
        assert(old_map.dom().insert(pid) =~= old_map.dom());
        assert(after.bounds_valid() == before.bounds_valid());
    } else {
        assert(new_map.len() == old_map.len() + 1);
        assert(process_label_valid(pid, new_map[pid]@) || pid == 0) by {
            reveal_strlit("actingcommand-runtime");
            vstd::utf8::is_ascii_chars_encode_utf8("actingcommand-runtime"@);
        }
        assert forall|other: u32| #[trigger] old_map.contains_key(other) implies
            new_map.contains_key(other) && new_map[other] == old_map[other] by {}
        assert forall|other: u32| #[trigger] new_map.contains_key(other) implies other == pid
            || old_map.contains_key(other) by {}
        if before.bounds_valid() && pid > 0 && old_map.len() < 32 {
            assert(after.bounds_valid());
        }
        assert(new_map.contains_key(pid));
        if !before.bounds_valid() && after.bounds_valid() {
            assert forall|other: u32| #[trigger] old_map.contains_key(other) implies
                process_label_valid(other, old_map[other]@) by {
                assert(new_map.contains_key(other));
            }
            assert(false);
        }
    }
}

/// Where no pressure of a kind is active, a sample starts one exactly where its
/// load reaches the start threshold. The pressure starts and was last observed
/// at the sample, with the load of the sample as its peak, and its start is
/// told.
pub proof fn law_load_starts_a_pressure(
    pressures: ActivePressures,
    sample: RawSystemSample,
    kind: PerformancePressureKind,
    thresholds: PerformanceThresholds,
)
    requires
        thresholds.valid(),
        pressures.of(kind) is None,
    ensures
        ({
            let after = pressures_after(pressures, sample, thresholds).of(kind);
            let events = sample_step(pressures, sample, kind, thresholds).1;
            &&& after is Some <==> load_starts(sample, kind, thresholds)
            &&& after is None ==> events.len() == 0
            &&& after matches Some(active) ==> {
                &&& active.event_id is None
                &&& active.record.kind == kind
                &&& active.record.started_at_unix_ms == sample.observed_at_unix_ms
                &&& active.record.last_observed_at_unix_ms == sample.observed_at_unix_ms
                &&& Some(active.record.peak) == measured(sample, kind)
                &&& active.record.severity == severity_of(
                    kind,
                    measured(sample, kind)->0,
                    thresholds,
                )
                &&& events.len() == 1
                &&& events[0] matches SemanticEventView::PressureStarted(data) && data.pressure
                    == active.record && data.observed_at_unix_ms == sample.observed_at_unix_ms
            }
        }),
{
    law_load_decides_the_pressure(sample, kind, thresholds);
}

/// An active pressure lasts exactly as long as the samples reach its end
/// threshold: it keeps its start and the event of it, is as severe as the
/// latest sample, and nothing is told. Once a sample falls below, the pressure
/// is over and its end is told.
pub proof fn law_pressure_lasts_to_its_end_threshold(
    pressures: ActivePressures,
    sample: RawSystemSample,
    kind: PerformancePressureKind,
    thresholds: PerformanceThresholds,
)
    requires
        thresholds.valid(),
        pressures.of(kind) is Some,
    ensures
        ({
            let before = pressures.of(kind)->0;
            let after = pressures_after(pressures, sample, thresholds).of(kind);
            let events = sample_step(pressures, sample, kind, thresholds).1;
            &&& after is Some <==> load_lasts(sample, kind, thresholds)
            &&& after matches Some(active) ==> {
                &&& active.event_id == before.event_id
                &&& active.record.kind == before.record.kind
                &&& active.record.started_at_unix_ms == before.record.started_at_unix_ms
                &&& active.record.last_observed_at_unix_ms == sample.observed_at_unix_ms
                &&& active.record.severity == severity_of(
                    kind,
                    measured(sample, kind)->0,
                    thresholds,
                )
                &&& active.record.peak == peak_of(before.record.peak, measured(sample, kind)->0)
                &&& events.len() == 0
            }
            &&& after is None ==> {
                &&& events.len() == 1
                &&& events[0] matches SemanticEventView::PressureEnded(data)
                    && data.observed_at_unix_ms == sample.observed_at_unix_ms
                    && data.pressure.started_at_unix_ms == before.record.started_at_unix_ms
                    && data.pressure.kind == before.record.kind && data.pressure.peak
                    == before.record.peak && data.pressure.last_observed_at_unix_ms
                    == sample.observed_at_unix_ms
            }
        }),
{
    law_load_decides_the_pressure(sample, kind, thresholds);
    if load_starts(sample, kind, thresholds) {
        law_starting_keeps_up(kind, measured(sample, kind)->0, thresholds);
    }
}

/// What a sample tells of the pressures is what it tells of each kind, in the
/// order of the kinds, and nothing is left out.
pub proof fn law_every_kind_is_told(
    pressures: ActivePressures,
    sample: RawSystemSample,
    kind: PerformancePressureKind,
    thresholds: PerformanceThresholds,
    index: int,
)
    requires
        0 <= index < sample_step(pressures, sample, kind, thresholds).1.len(),
    ensures
        pressure_events(pressures, sample, thresholds).contains(
            sample_step(pressures, sample, kind, thresholds).1[index],
        ),
{
    let cpu = sample_step(pressures, sample, PerformancePressureKind::Cpu, thresholds).1;
    let ram = sample_step(pressures, sample, PerformancePressureKind::Ram, thresholds).1;
    let disk = sample_step(pressures, sample, PerformancePressureKind::DiskIo, thresholds).1;
    let gpu = sample_step(pressures, sample, PerformancePressureKind::Gpu, thresholds).1;
    let other = sample_step(pressures, sample, PerformancePressureKind::ThirdParty, thresholds).1;
    let all = pressure_events(pressures, sample, thresholds);
    assert(all == cpu + ram + disk + gpu + other);
    let start: int = match kind {
        PerformancePressureKind::Cpu => 0,
        PerformancePressureKind::Ram => cpu.len() as int,
        PerformancePressureKind::DiskIo => (cpu.len() + ram.len()) as int,
        PerformancePressureKind::Gpu => (cpu.len() + ram.len() + disk.len()) as int,
        PerformancePressureKind::ThirdParty => (cpu.len() + ram.len() + disk.len() + gpu.len())
            as int,
    };
    assert(all[start + index] == sample_step(pressures, sample, kind, thresholds).1[index]);
}

/// A started pressure is told as an error from a high severity on, a degraded
/// monitor once it is given up, and a change of the balance from reduced
/// service on or where a deadline is lost. What gets better is told for
/// information.
pub proof fn law_events_are_as_severe_as_they_are(event: SemanticEventView)
    ensures
        event matches SemanticEventView::PressureStarted(data) ==> event_severity(event)
            != EventSeverity::Info && (event_severity(event) == EventSeverity::Error
            <==> data.pressure.severity == PerformancePressureSeverity::High
            || data.pressure.severity == PerformancePressureSeverity::Critical),
        event is PressureEnded || event is Summary || event is MonitorRecovered ==> event_severity(
            event,
        ) == EventSeverity::Info,
        event matches SemanticEventView::MonitorDegraded(data) ==> event_severity(event)
            != EventSeverity::Info && (event_severity(event) == EventSeverity::Error
            <==> data.terminal),
        event is StutterDetected ==> event_severity(event) == EventSeverity::Warning,
        event matches SemanticEventView::BalanceChanged(data) ==> {
            let strong = data.level == PerformanceControlLevel::QosReduced || data.level
                == PerformanceControlLevel::Suspended || data.level
                == PerformanceControlLevel::ShutdownRequested;
            let lost = data.deadline_disposition == Some(
                PerformanceDeadlineDisposition::CapacityFailure,
            );
            &&& event_severity(event) == EventSeverity::Error <==> strong || lost
            &&& event_severity(event) == EventSeverity::Warning ==> !data.recovery && data.level
                != PerformanceControlLevel::Normal
            &&& event_severity(event) == EventSeverity::Info ==> data.recovery || data.level
                == PerformanceControlLevel::Normal
        },
{
}

/// The window of a context ends at its instant and reaches back as far as the
/// configuration says, but never before the first instant.
pub proof fn law_context_window_reaches_back(config: PerformanceMonitorConfig, window_end: u64)
    requires
        config.context_window.millis <= u64::MAX,
    ensures
        context_start(config, window_end) >= 1,
        window_end > config.context_window.millis ==> context_start(config, window_end)
            == window_end - config.context_window.millis,
        window_end <= config.context_window.millis ==> context_start(config, window_end) == 1,
{
}

/// A context that is there counts exactly the samples of its window, and shows
/// a pressure of a kind exactly where one of them shows a load that starts one.
pub proof fn law_context_shows_the_pressures(
    context: ContextView,
    monitor: MonitorView,
    instance_id: Seq<char>,
    window_end: u64,
    kind: PerformancePressureKind,
    sample: int,
)
    requires
        is_context(context, monitor, instance_id, window_end),
        monitor.config is Some,
        monitor.config->0.thresholds.valid(),
        0 <= sample < monitor.system_samples.len(),
        context_start(monitor.config->0, window_end)
            <= monitor.system_samples[sample].observed_at_unix_ms <= window_end,
    ensures
        context.sample_count > 0,
        context.window_end_unix_ms == window_end,
        context.max_cpu_basis_points matches Some(most) && most
            >= monitor.system_samples[sample].cpu_total_basis_points,
        context.max_ram_basis_points matches Some(most) && most
            >= monitor.system_samples[sample].ram_used_basis_points,
        load_starts(monitor.system_samples[sample], kind, monitor.config->0.thresholds)
            ==> exists|i: int|
            0 <= i < context.pressures.len() && (#[trigger] context.pressures[i]).kind == kind,
{
    let config = monitor.config->0;
    let from = context_start(config, window_end);
    let samples = monitor.system_samples;
    lemma_counted(samples, from, window_end, sample);
    lemma_largest(samples, in_samples(from, window_end, cpu_share()));
    lemma_largest(samples, in_samples(from, window_end, ram_share()));
    assert(in_samples(from, window_end, cpu_share())(samples[sample]) == Some(
        samples[sample].cpu_total_basis_points as u64,
    ));
    assert(in_samples(from, window_end, ram_share())(samples[sample]) == Some(
        samples[sample].ram_used_basis_points as u64,
    ));
    if load_starts(samples[sample], kind, config.thresholds) {
        law_window_records_its_pressures(samples, from, window_end, kind, config.thresholds);
        assert(starts_in_window(samples[sample], from, window_end, kind, config.thresholds));
        let cpu = one_or_none(
            summarized_pressure(
                samples,
                from,
                window_end,
                PerformancePressureKind::Cpu,
                config.thresholds,
            ),
        );
        let ram = one_or_none(
            summarized_pressure(
                samples,
                from,
                window_end,
                PerformancePressureKind::Ram,
                config.thresholds,
            ),
        );
        let disk = one_or_none(
            summarized_pressure(
                samples,
                from,
                window_end,
                PerformancePressureKind::DiskIo,
                config.thresholds,
            ),
        );
        let gpu = one_or_none(
            summarized_pressure(
                samples,
                from,
                window_end,
                PerformancePressureKind::Gpu,
                config.thresholds,
            ),
        );
        let other = one_or_none(
            summarized_pressure(
                samples,
                from,
                window_end,
                PerformancePressureKind::ThirdParty,
                config.thresholds,
            ),
        );
        assert(context.pressures == cpu + ram + disk + gpu + other);
        let start: int = match kind {
            PerformancePressureKind::Cpu => 0,
            PerformancePressureKind::Ram => cpu.len() as int,
            PerformancePressureKind::DiskIo => (cpu.len() + ram.len()) as int,
            PerformancePressureKind::Gpu => (cpu.len() + ram.len() + disk.len()) as int,
            PerformancePressureKind::ThirdParty => (cpu.len() + ram.len() + disk.len() + gpu.len())
                as int,
        };
        assert(context.pressures[start].kind == kind);
    }
}

proof fn lemma_counted(samples: Seq<RawSystemSample>, from: u64, to: u64, index: int)
    requires
        0 <= index < samples.len(),
        in_window(samples[index].observed_at_unix_ms, from, to),
    ensures
        samples_in_window(samples, from, to) > 0,
    decreases samples.len(),
{
    if index < samples.len() - 1 {
        assert(samples.drop_last()[index] == samples[index]);
        lemma_counted(samples.drop_last(), from, to, index);
    }
}

/// One more sample counts for a window exactly where it lies in it.
pub proof fn law_window_counts_its_samples(
    samples: Seq<RawSystemSample>,
    sample: RawSystemSample,
    from: u64,
    to: u64,
)
    ensures
        samples_in_window(samples.push(sample), from, to) == samples_in_window(samples, from, to)
            + if from <= sample.observed_at_unix_ms && sample.observed_at_unix_ms <= to {
            1nat
        } else {
            0
        },
        samples_in_window(Seq::empty(), from, to) == 0,
{
    assert(samples.push(sample).drop_last() =~= samples);
}

/// A context is healthy only with samples, nothing missing from any of them
/// and nothing lost by the monitor; without samples it is unavailable.
pub proof fn law_healthy_context_misses_nothing(
    monitor: MonitorView,
    from: u64,
    to: u64,
    metric: PerformanceMetric,
)
    ensures
        context_health(monitor, from, to) == PerformanceMonitorHealth::Unavailable
            <==> samples_in_window(monitor.system_samples, from, to) == 0,
        samples_in_window(monitor.system_samples, from, to) > 0 && monitor.health
            == PerformanceMonitorHealth::Degraded ==> context_health(monitor, from, to)
            == PerformanceMonitorHealth::Degraded,
        context_health(monitor, from, to) == PerformanceMonitorHealth::Healthy ==> {
            &&& monitor.health != PerformanceMonitorHealth::Degraded
            &&& !monitor.degraded_metrics.contains(metric)
            &&& forall|i: int|
                0 <= i < monitor.system_samples.len() && from
                    <= monitor.system_samples[i].observed_at_unix_ms
                    && monitor.system_samples[i].observed_at_unix_ms <= to ==> !(
                #[trigger] monitor.system_samples[i]).unavailable_metrics@.contains(metric)
        },
{
    if context_health(monitor, from, to) == PerformanceMonitorHealth::Healthy {
        let all = host_metric_list() + pipeline_metric_list();
        let missing = |other: PerformanceMetric| metric_unavailable(monitor, from, to, other);
        lemma_every_metric_is_listed(metric);
        let position = all.index_of(metric);
        assert(all[position] == metric);
        if missing(metric) {
            lemma_filter_keeps(all, missing, position);
        }
    }
}

proof fn lemma_every_metric_is_listed(metric: PerformanceMetric)
    ensures
        (host_metric_list() + pipeline_metric_list()).contains(metric),
{
    let all = host_metric_list() + pipeline_metric_list();
    let position: int = match metric {
        PerformanceMetric::CpuTotal => 0,
        PerformanceMetric::CpuPerCore => 1,
        PerformanceMetric::Ram => 2,
        PerformanceMetric::DiskQueueDepth => 3,
        PerformanceMetric::DiskLatency => 4,
        PerformanceMetric::Gpu => 5,
        PerformanceMetric::ProcessCpu => 6,
        PerformanceMetric::ProcessRam => 7,
        PerformanceMetric::ProcessIo => 8,
        PerformanceMetric::ForegroundProcess => 9,
        PerformanceMetric::FrameGap => 10,
        PerformanceMetric::CaptureLatency => 11,
        PerformanceMetric::RecognitionLatency => 12,
        PerformanceMetric::ActionEffectLatency => 13,
    };
    assert(all[position] == metric);
}

proof fn lemma_filter_keeps(
    metrics: Seq<PerformanceMetric>,
    wanted: spec_fn(PerformanceMetric) -> bool,
    index: int,
)
    requires
        0 <= index < metrics.len(),
        wanted(metrics[index]),
    ensures
        metrics.filter(wanted).len() > 0,
    decreases metrics.len(),
{
    reveal(Seq::filter);
    if index < metrics.len() - 1 {
        assert(metrics.drop_last()[index] == metrics[index]);
        lemma_filter_keeps(metrics.drop_last(), wanted, index);
    }
}

/// The events related to a window are those observed in it, its ends included,
/// and those that started a pressure which still lasts.
pub proof fn law_related_events_are_of_the_window(
    monitor: MonitorView,
    from: u64,
    to: u64,
    index: int,
)
    requires
        0 <= index < monitor.event_references.len(),
    ensures
        from <= monitor.event_references[index].observed_at_unix_ms
            && monitor.event_references[index].observed_at_unix_ms <= to ==> related_events(
            monitor,
            from,
            to,
        ).contains(monitor.event_references[index].event_id),
        forall|kind: PerformancePressureKind|
            (#[trigger] monitor.active_pressures.of(kind)) matches Some(active)
                && active.event_id is Some ==> related_events(monitor, from, to).contains(
                (monitor.active_pressures.of(kind)->0).event_id->0,
            ),
{
    if from <= monitor.event_references[index].observed_at_unix_ms
        && monitor.event_references[index].observed_at_unix_ms <= to {
        assert(in_window(monitor.event_references[index].observed_at_unix_ms, from, to));
    }
    assert forall|kind: PerformancePressureKind|
        (#[trigger] monitor.active_pressures.of(kind)) matches Some(active)
            && active.event_id is Some implies related_events(monitor, from, to).contains(
        (monitor.active_pressures.of(kind)->0).event_id->0,
    ) by {
        let id = (monitor.active_pressures.of(kind)->0).event_id->0;
        assert(monitor.active_pressures.event_ids().contains(id));
    }
}

/// A limited listing holds members only, in increasing order, never more than
/// the limit, and all of them while they fit.
pub proof fn law_limited_listing_keeps_the_smallest(
    ids: Seq<u128>,
    members: Set<u128>,
    maximum: int,
    left: int,
    right: int,
)
    requires
        is_first_members(ids, members, maximum),
        0 <= maximum,
    ensures
        ids.len() <= maximum,
        0 <= left < ids.len() ==> members.contains(ids[left]),
        0 <= left < right < ids.len() ==> ids[left] < ids[right],
        forall|member: u128| #[trigger]
            members.contains(member) && !ids.contains(member) ==> ids.len() == maximum && (0 <= left
                < ids.len() ==> ids[left] < member),
{
    let listing = choose|listing: Seq<u128>| #[trigger]
        lists_in_order(listing, members) && ids == listing.take(
            if listing.len() <= maximum {
                listing.len() as int
            } else {
                maximum
            },
        );
    if 0 <= left < ids.len() {
        assert(listing[left] == ids[left]);
        assert(listing.to_set().contains(listing[left]));
    }
    assert forall|member: u128| #[trigger]
        members.contains(member) && !ids.contains(member) implies ids.len() == maximum && (0 <= left
        < ids.len() ==> ids[left] < member) by {
        assert(listing.to_set().contains(member));
        let at = listing.index_of(member);
        assert(listing[at] == member);
        if at < ids.len() {
            assert(ids[at] == member);
        }
    }
}

} // verus!
