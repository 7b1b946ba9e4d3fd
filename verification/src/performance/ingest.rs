//! The host's part of the monitor: samples, failures to sample, and what the
//! control is told.

use vstd::prelude::*;
use vstd::string::StringExecFns;

use crate::error::{RuntimeHostError, RuntimeHostResult};
use crate::performance::config::{
    performance_error, performance_fatal, PerformanceMonitorConfig, PerformanceThresholds,
};
use crate::performance::measure::{trim_queue, trimmed};
use crate::performance::monitor::{
    context_start, event_time, is_context, pressure_events, pressure_step, pressures_after,
    samples_in_window, samples_ordered, semantic_events, ActivePressure, MonitorFailureDomain,
    MonitorStateView, MonitorView, PerformanceMonitor, PerformanceMonitorStateEventData,
    PerformancePressureEventData, PerformanceSemanticEvent, PerformanceSummaryEventData,
    PerformanceTick, SampleSource, SemanticEventView, TimedEventReference,
};
use crate::performance::pressure::{
    measured, peak_value, pressure_above_end, pressure_above_start, pressure_measurements,
    pressure_severity, process_count_fits, start_record, PerformancePressureKind,
    PerformancePressureValue,
};
use crate::performance::sample::{
    copy_metrics, copy_processes, health_of, host_metric_list, host_metrics, is_pipeline_metric,
    pipeline_metric_list, pipeline_metrics, sample_health, validate_raw_sample, MetricSet,
    PerformanceForegroundSummary, PerformanceMetric, PerformanceMonitorHealth, RawSystemSample,
};
use crate::text::{all_token_bytes, is_token, utf8};

verus! {

/// A code that a failure can be recorded under.
pub open spec fn error_code_valid(code: Seq<char>) -> bool {
    0 < utf8(code).len() <= 128 && all_token_bytes(utf8(code))
}

pub fn valid_error_code(code: &str) -> (valid: bool)
    ensures
        valid == error_code_valid(code@),
{
    let length: usize = code.as_bytes().len();
    length > 0 && length <= 128 && is_token(code)
}

/// The metrics that a failure makes unavailable.
pub open spec fn domain_metrics(domain: MonitorFailureDomain) -> Seq<PerformanceMetric> {
    match domain {
        MonitorFailureDomain::Sampler => host_metric_list(),
        MonitorFailureDomain::Pipeline => pipeline_metric_list(),
    }
}

/// Whether a metric belongs to a domain.
pub open spec fn in_domain(domain: MonitorFailureDomain, metric: PerformanceMetric) -> bool {
    match domain {
        MonitorFailureDomain::Sampler => !is_pipeline_metric(metric),
        MonitorFailureDomain::Pipeline => is_pipeline_metric(metric),
    }
}

/// The metrics that a domain lists are exactly the ones that belong to it.
pub proof fn law_domains_divide_metrics(domain: MonitorFailureDomain, metric: PerformanceMetric)
    ensures
        domain_metrics(domain).contains(metric) == in_domain(domain, metric),
{
    let hosts = host_metric_list();
    let pipes = pipeline_metric_list();
    match metric {
        PerformanceMetric::CpuTotal => assert(hosts[0] == metric),
        PerformanceMetric::CpuPerCore => assert(hosts[1] == metric),
        PerformanceMetric::Ram => assert(hosts[2] == metric),
        PerformanceMetric::DiskQueueDepth => assert(hosts[3] == metric),
        PerformanceMetric::DiskLatency => assert(hosts[4] == metric),
        PerformanceMetric::Gpu => assert(hosts[5] == metric),
        PerformanceMetric::ProcessCpu => assert(hosts[6] == metric),
        PerformanceMetric::ProcessRam => assert(hosts[7] == metric),
        PerformanceMetric::ProcessIo => assert(hosts[8] == metric),
        PerformanceMetric::ForegroundProcess => assert(hosts[9] == metric),
        PerformanceMetric::FrameGap => assert(pipes[0] == metric),
        PerformanceMetric::CaptureLatency => assert(pipes[1] == metric),
        PerformanceMetric::RecognitionLatency => assert(pipes[2] == metric),
        PerformanceMetric::ActionEffectLatency => assert(pipes[3] == metric),
    }
    assert forall|i: int| 0 <= i < hosts.len() implies !is_pipeline_metric(#[trigger] hosts[i]) by {
        assert(i == 0 || i == 1 || i == 2 || i == 3 || i == 4 || i == 5 || i == 6 || i == 7 || i
            == 8 || i == 9);
    }
    assert forall|i: int| 0 <= i < pipes.len() implies is_pipeline_metric(#[trigger] pipes[i]) by {
        assert(i == 0 || i == 1 || i == 2 || i == 3);
    }
}

fn add_metrics(set: &mut MetricSet, metrics: &Vec<PerformanceMetric>)
    requires
        old(set).wf(),
    ensures
        final(set).wf(),
        final(set)@.dom() == old(set)@.dom().union(metrics@.to_set()),
{
    let ghost start = set@.dom();
    let mut index: usize = 0;
    assert(metrics@.take(0).to_set() =~= Set::<PerformanceMetric>::empty());
    assert(set@.dom() =~= start.union(metrics@.take(0).to_set()));
    while index < metrics.len()
        invariant
            index <= metrics.len(),
            set.wf(),
            set@.dom() == start.union(metrics@.take(index as int).to_set()),
        decreases metrics.len() - index,
    {
        set.insert(metrics[index], ());
        proof {
            let taken = metrics@.take(index as int);
            let next = metrics@.take(index + 1);
            assert(next =~= taken.push(metrics@[index as int]));
            assert(next.to_set() =~= taken.to_set().insert(metrics@[index as int])) by {
                assert forall|m: PerformanceMetric| next.to_set().contains(m)
                    == taken.to_set().insert(metrics@[index as int]).contains(m) by {
                    if taken.contains(m) {
                        let k = taken.index_of(m);
                        assert(next[k] == m);
                    }
                    if next.contains(m) {
                        let k = next.index_of(m);
                        if k < index {
                            assert(taken[k] == m);
                        }
                    }
                    assert(next[index as int] == metrics@[index as int]);
                }
            }
            assert(set@.dom() =~= start.union(next.to_set()));
        }
        index += 1;
    }
    assert(metrics@.take(metrics@.len() as int) =~= metrics@);
}

fn remove_metrics(set: &mut MetricSet, metrics: &Vec<PerformanceMetric>)
    requires
        old(set).wf(),
    ensures
        final(set).wf(),
        final(set)@.dom() == old(set)@.dom().difference(metrics@.to_set()),
{
    let ghost start = set@.dom();
    let mut index: usize = 0;
    assert(metrics@.take(0).to_set() =~= Set::<PerformanceMetric>::empty());
    assert(set@.dom() =~= start.difference(metrics@.take(0).to_set()));
    while index < metrics.len()
        invariant
            index <= metrics.len(),
            set.wf(),
            set@.dom() == start.difference(metrics@.take(index as int).to_set()),
        decreases metrics.len() - index,
    {
        set.remove(&metrics[index]);
        proof {
            let taken = metrics@.take(index as int);
            let next = metrics@.take(index + 1);
            assert(next =~= taken.push(metrics@[index as int]));
            assert(next.to_set() =~= taken.to_set().insert(metrics@[index as int])) by {
                assert forall|m: PerformanceMetric| next.to_set().contains(m)
                    == taken.to_set().insert(metrics@[index as int]).contains(m) by {
                    if taken.contains(m) {
                        let k = taken.index_of(m);
                        assert(next[k] == m);
                    }
                    if next.contains(m) {
                        let k = next.index_of(m);
                        if k < index {
                            assert(taken[k] == m);
                        }
                    }
                    assert(next[index as int] == metrics@[index as int]);
                }
            }
            assert(set@.dom() =~= start.difference(next.to_set()));
        }
        index += 1;
    }
    assert(metrics@.take(metrics@.len() as int) =~= metrics@);
}

/// The event of a monitor that is well again.
pub open spec fn recovered_event(
    at: u64,
    health: PerformanceMonitorHealth,
    sample: RawSystemSample,
) -> SemanticEventView {
    SemanticEventView::MonitorRecovered(
        MonitorStateView {
            observed_at_unix_ms: at,
            health,
            failure_code: None,
            consecutive_failures: 0,
            terminal: false,
            unavailable_metrics: sample.unavailable_metrics@,
        },
    )
}

impl MonitorView {
    /// The metrics still lost once a domain is well again.
    pub open spec fn still_degraded(self, domain: MonitorFailureDomain) -> Set<PerformanceMetric> {
        self.degraded_metrics.difference(domain_metrics(domain).to_set())
    }

    /// The health after a sample.
    pub open spec fn health_after(self, sample: RawSystemSample) -> PerformanceMonitorHealth {
        if self.pipeline_stopped || self.consecutive_pipeline_failures > 0 || self.still_degraded(
            MonitorFailureDomain::Sampler,
        ) != Set::<PerformanceMetric>::empty() {
            PerformanceMonitorHealth::Degraded
        } else {
            health_of(sample)
        }
    }

    /// A summary is due with a sample.
    pub open spec fn summary_due(self, sample: RawSystemSample, interval_ms: u64) -> bool {
        match self.last_summary_unix_ms {
            None => true,
            Some(previous) => sample.observed_at_unix_ms >= previous && sample.observed_at_unix_ms
                - previous >= interval_ms || interval_ms == 0,
        }
    }

    /// Why a sample is refused, if it is.
    pub open spec fn sample_refusal(self, sample: RawSystemSample) -> Option<RuntimeHostError> {
        match self.config {
            None => Some(
                performance_error("performance_monitor_disabled", "ingest_performance_sample"),
            ),
            Some(config) => if !sample.valid(config.top_process_count) {
                Some(performance_error("performance_sample_invalid", "ingest_performance_sample"))
            } else if self.system_samples.len() > 0 && self.system_samples.last().observed_at_unix_ms
                >= sample.observed_at_unix_ms {
                Some(
                    performance_error(
                        "performance_sample_time_invalid",
                        "ingest_performance_sample",
                    ),
                )
            } else {
                None
            },
        }
    }

    /// The monitor after a sample that it takes.
    pub open spec fn after_sample(self, config: PerformanceMonitorConfig, sample: RawSystemSample) ->
        MonitorView {
        MonitorView {
            consecutive_sampler_failures: 0,
            degraded_metrics: self.still_degraded(MonitorFailureDomain::Sampler),
            health: self.health_after(sample),
            system_samples: trimmed(
                self.system_samples.push(sample),
                config.max_system_samples,
                config.context_window.millis as u64,
            ),
            active_pressures: pressures_after(self.active_pressures, sample, config.thresholds),
            last_summary_unix_ms: if self.summary_due(sample, config.summary_interval.millis as u64) {
                Some(sample.observed_at_unix_ms)
            } else {
                self.last_summary_unix_ms
            },
            ..self
        }
    }

    /// A summary is due, and too many samples lie in its window to be counted.
    pub open spec fn summary_overflows(
        self,
        config: PerformanceMonitorConfig,
        sample: RawSystemSample,
    ) -> bool {
        self.summary_due(sample, config.summary_interval.millis as u64) && samples_in_window(
            self.after_sample(config, sample).system_samples,
            context_start(config, sample.observed_at_unix_ms),
            sample.observed_at_unix_ms,
        ) > u32::MAX
    }

    /// The events of a sample, the summary aside.
    pub open spec fn sample_events(self, config: PerformanceMonitorConfig, sample: RawSystemSample) ->
        Seq<SemanticEventView> {
        let changes = pressure_events(self.active_pressures, sample, config.thresholds);
        if self.health == PerformanceMonitorHealth::Degraded && self.health_after(sample)
            != PerformanceMonitorHealth::Degraded {
            changes.push(
                recovered_event(sample.observed_at_unix_ms, self.health_after(sample), sample),
            )
        } else {
            changes
        }
    }

    /// The failures in a row of a domain.
    pub open spec fn failures(self, domain: MonitorFailureDomain) -> u16 {
        match domain {
            MonitorFailureDomain::Sampler => self.consecutive_sampler_failures,
            MonitorFailureDomain::Pipeline => self.consecutive_pipeline_failures,
        }
    }

    /// The step that a failure makes: its state, its event or error, and
    /// whether sampling stops.
    pub open spec fn after_failure(
        self,
        at: u64,
        code: Seq<char>,
        domain: MonitorFailureDomain,
    ) -> (MonitorView, Result<(Seq<SemanticEventView>, bool), RuntimeHostError>) {
        let operation = "record_performance_monitor_failure";
        match self.config {
            None => (self, Err(performance_error("performance_monitor_disabled", operation))),
            Some(config) => if at == 0 || !error_code_valid(code) {
                (self, Err(performance_error("performance_monitor_failure_invalid", operation)))
            } else if self.failures(domain) == u16::MAX {
                (self, Err(performance_error("performance_failure_count_overflow", operation)))
            } else {
                let failures = (self.failures(domain) + 1) as u16;
                let terminal = failures >= config.max_consecutive_failures;
                let degraded = MonitorView {
                    health: PerformanceMonitorHealth::Degraded,
                    degraded_metrics: self.degraded_metrics.union(
                        domain_metrics(domain).to_set(),
                    ),
                    ..self
                };
                let state = match domain {
                    MonitorFailureDomain::Sampler => MonitorView {
                        consecutive_sampler_failures: failures,
                        sampling_stopped: self.sampling_stopped || terminal,
                        ..degraded
                    },
                    MonitorFailureDomain::Pipeline => MonitorView {
                        consecutive_pipeline_failures: failures,
                        pipeline_stopped: self.pipeline_stopped || terminal,
                        ..degraded
                    },
                };
                let events = if failures == 1 || terminal {
                    seq![
                        SemanticEventView::MonitorDegraded(
                            MonitorStateView {
                                observed_at_unix_ms: at,
                                health: PerformanceMonitorHealth::Degraded,
                                failure_code: Some(code),
                                consecutive_failures: failures,
                                terminal,
                                unavailable_metrics: domain_metrics(domain),
                            },
                        ),
                    ]
                } else {
                    Seq::empty()
                };
                (state, Ok((events, terminal && domain == MonitorFailureDomain::Sampler)))
            },
        }
    }

    /// The monitor after a reference to an event, the oldest ones dropped.
    pub open spec fn after_reference(self, config: PerformanceMonitorConfig, at: u64, event_id: u128) ->
        MonitorView {
        let references = self.event_references.push(
            TimedEventReference { observed_at_unix_ms: at, event_id },
        );
        MonitorView {
            event_references: if references.len() > config.max_event_references {
                references.skip(references.len() - config.max_event_references)
            } else {
                references
            },
            ..self
        }
    }
}

/// The result is that of a failure.
pub open spec fn is_failure_result(
    result: RuntimeHostResult<PerformanceTick>,
    step: Result<(Seq<SemanticEventView>, bool), RuntimeHostError>,
) -> bool {
    match step {
        Ok((events, stop)) => result matches Ok(tick) && semantic_events(tick.events@) == events
            && tick.stop_sampling == stop,
        Err(error) => result matches Err(actual) && actual == error,
    }
}

/// The tick that a sample gives: its events, and the summary if one is due.
pub open spec fn is_sample_tick(
    tick: PerformanceTick,
    before: MonitorView,
    after: MonitorView,
    config: PerformanceMonitorConfig,
    sample: RawSystemSample,
) -> bool {
    let events = semantic_events(tick.events@);
    let base = before.sample_events(config, sample);
    &&& !tick.stop_sampling
    &&& if before.summary_due(sample, config.summary_interval.millis as u64) {
        &&& events.len() == base.len() + 1
        &&& events.drop_last() == base
        &&& events.last() matches SemanticEventView::Summary(summary)
        &&& is_context(summary.context, after, "runtime"@, sample.observed_at_unix_ms)
        &&& summary.foreground == sample.foreground
        &&& summary.owned_processes == sample.owned_processes@
        &&& summary.third_party_high_load == sample.third_party_high_load@
    } else {
        events == base
    }
}

fn copy_foreground(foreground: &Option<PerformanceForegroundSummary>) -> (copy: Option<
    PerformanceForegroundSummary,
>)
    ensures
        copy == *foreground,
{
    match foreground {
        Some(summary) => Some(
            PerformanceForegroundSummary {
                process: summary.process.copy(),
                fullscreen: summary.fullscreen,
            },
        ),
        None => None,
    }
}

impl PerformanceMonitor {
    /// Says where the next sample comes from. An error at the sampler's start
    /// is reported once.
    pub fn next_sample(&mut self) -> (result: RuntimeHostResult<SampleSource>)
        requires
            old(self).wf(),
        ensures
            final(self).wf(),
            if old(self).sampling_stopped {
                &&& result == Ok::<_, RuntimeHostError>(SampleSource::Stopped)
                &&& final(self)@ == old(self)@
            } else if old(self).config is None {
                &&& result == Err::<SampleSource, _>(
                    performance_error("performance_monitor_disabled", "sample_performance_monitor"),
                )
                &&& final(self)@ == old(self)@
            } else {
                &&& result == Ok::<_, RuntimeHostError>(
                    match old(self).sampler_start_error {
                        Some(code) => SampleSource::Failed(code),
                        None => if old(self).sampler_available {
                            SampleSource::Sampler
                        } else {
                            SampleSource::Failed("performance_sampler_unavailable")
                        },
                    },
                )
                &&& final(self)@ == (MonitorView { sampler_start_error: None, ..old(self)@ })
            },
    {
        if self.sampling_stopped {
            return Ok(SampleSource::Stopped);
        }
        if self.config.is_none() {
            return Err(
                performance_fatal("performance_monitor_disabled", "sample_performance_monitor"),
            );
        }
        let source = match self.sampler_start_error {
            Some(code) => SampleSource::Failed(code),
            None => {
                if self.sampler_available {
                    SampleSource::Sampler
                } else {
                    SampleSource::Failed("performance_sampler_unavailable")
                }
            },
        };
        self.sampler_start_error = None;
        Ok(source)
    }

    /// Takes what sampling gave.
    pub fn tick(&mut self, observed_at_unix_ms: u64, sampled: Result<RawSystemSample, &'static str>) -> (
    result: RuntimeHostResult<PerformanceTick>)
        requires
            old(self).wf(),
        ensures
            final(self).wf(),
            if old(self).sampling_stopped {
                &&& result matches Ok(tick) && tick.events@.len() == 0 && tick.stop_sampling
                &&& final(self)@ == old(self)@
            } else if old(self).config is None {
                &&& result matches Err(error) && error == performance_error(
                    "performance_monitor_disabled",
                    "sample_performance_monitor",
                )
                &&& final(self)@ == old(self)@
            } else {
                match sampled {
                    Err(code) => {
                        let (state, step) = old(self)@.after_failure(
                            observed_at_unix_ms,
                            code@,
                            MonitorFailureDomain::Sampler,
                        );
                        &&& final(self)@ == state
                        &&& is_failure_result(result, step)
                    },
                    Ok(sample) => match old(self)@.sample_refusal(sample) {
                        Some(error) => result matches Err(actual) && actual == error && final(self)@ == old(self)@,
                        None => {
                            let config = old(self).config->0;
                            let after = old(self)@.after_sample(config, sample);
                            if old(self)@.summary_overflows(config, sample) {
                                &&& result matches Err(error) && error == performance_error(
                                    "performance_sample_count_overflow",
                                    "read_performance_context",
                                )
                                &&& final(self)@ == (MonitorView {
                                    last_summary_unix_ms: old(self).last_summary_unix_ms,
                                    ..after
                                })
                            } else {
                                &&& final(self)@ == after
                                &&& result matches Ok(tick) && is_sample_tick(
                                    tick,
                                    old(self)@,
                                    final(self)@,
                                    config,
                                    sample,
                                )
                            }
                        },
                    },
                }
            },
    {
        if self.sampling_stopped {
            return Ok(PerformanceTick { events: Vec::new(), stop_sampling: true });
        }
        if self.config.is_none() {
            return Err(
                performance_fatal("performance_monitor_disabled", "sample_performance_monitor"),
            );
        }
        match sampled {
            Ok(sample) => self.ingest_system_sample(sample),
            Err(code) => self.ingest_monitor_failure(
                observed_at_unix_ms,
                code,
                MonitorFailureDomain::Sampler,
            ),
        }
    }

    /// Takes a sample of the host.
    #[verifier::rlimit(50)]
    fn ingest_system_sample(&mut self, sample: RawSystemSample) -> (result: RuntimeHostResult<
        PerformanceTick,
    >)
        requires
            old(self).wf(),
        ensures
            final(self).wf(),
            match old(self)@.sample_refusal(sample) {
                Some(error) => result matches Err(actual) && actual == error && final(self)@ == old(self)@,
                None => {
                    let config = old(self).config->0;
                    let after = old(self)@.after_sample(config, sample);
                    if old(self)@.summary_overflows(config, sample) {
                        &&& result matches Err(error) && error == performance_error(
                            "performance_sample_count_overflow",
                            "read_performance_context",
                        )
                        &&& final(self)@ == (MonitorView {
                            last_summary_unix_ms: old(self).last_summary_unix_ms,
                            ..after
                        })
                    } else {
                        &&& final(self)@ == after
                        &&& result matches Ok(tick) && is_sample_tick(
                            tick,
                            old(self)@,
                            final(self)@,
                            config,
                            sample,
                        )
                    }
                },
            },
    {
        let ghost before = self@;
        let (maximum, window_ms, interval_ms, top_count, thresholds) = match &self.config {
            Some(config) => (
                config.max_system_samples,
                config.context_window.millis as u64,
                config.summary_interval.millis as u64,
                config.top_process_count,
                config.thresholds,
            ),
            None => {
                return Err(
                    performance_fatal("performance_monitor_disabled", "ingest_performance_sample"),
                );
            },
        };
        let ghost config = before.config->0;
        validate_raw_sample(&sample, top_count)?;
        let count: usize = self.system_samples.len();
        let at: u64 = sample.observed_at_unix_ms;
        if count > 0 && self.system_samples[count - 1].observed_at_unix_ms >= at {
            return Err(
                performance_fatal("performance_sample_time_invalid", "ingest_performance_sample"),
            );
        }
        let previous_health = self.health;
        self.consecutive_sampler_failures = 0;
        let metrics = host_metrics();
        remove_metrics(&mut self.degraded_metrics, &metrics);
        proof {
            assert(self@.degraded_metrics == before.still_degraded(MonitorFailureDomain::Sampler));
        }
        let any_degraded = self.any_degraded();
        self.health = if self.pipeline_stopped || self.consecutive_pipeline_failures > 0
            || any_degraded {
            PerformanceMonitorHealth::Degraded
        } else {
            sample_health(&sample)
        };
        assert(self.health == before.health_after(sample));
        let unavailable = copy_metrics(&sample.unavailable_metrics);
        let foreground = copy_foreground(&sample.foreground);
        let owned = copy_processes(&sample.owned_processes);
        let third_party = copy_processes(&sample.third_party_high_load);
        let mut events: Vec<PerformanceSemanticEvent> = Vec::new();
        assert(semantic_events(events@) =~= Seq::empty());
        self.update_pressures(&sample, &thresholds, &mut events);
        let ghost stored = self.system_samples@;
        self.system_samples.push_back(sample);
        let ghost pushed = self.system_samples@;
        assert(pushed =~= stored.push(sample));
        trim_queue(&mut self.system_samples, maximum, window_ms);
        proof {
            let kept = self.system_samples@;
            let dropped = pushed.len() - kept.len();
            assert(samples_ordered(pushed)) by {
                assert forall|i: int, j: int| 0 <= i < j < pushed.len() implies (
                #[trigger] pushed[i]).observed_at_unix_ms < (
                #[trigger] pushed[j]).observed_at_unix_ms by {
                    if j < stored.len() {
                        assert(pushed[i] == stored[i] && pushed[j] == stored[j]);
                    } else {
                        assert(pushed[i] == stored[i]);
                        if i < stored.len() - 1 {
                            assert(stored[i].observed_at_unix_ms < stored[stored.len()
                                - 1].observed_at_unix_ms);
                        }
                    }
                }
            }
            assert forall|i: int, j: int| 0 <= i < j < kept.len() implies (
            #[trigger] kept[i]).observed_at_unix_ms < (#[trigger] kept[j]).observed_at_unix_ms by {
                assert(kept[i] == pushed[i + dropped]);
                assert(kept[j] == pushed[j + dropped]);
            }
            assert forall|i: int| 0 <= i < kept.len() implies (#[trigger] kept[i]).valid(
                config.top_process_count,
            ) by {
                assert(kept[i] == pushed[i + dropped]);
                if i + dropped < stored.len() {
                    assert(stored[i + dropped].valid(config.top_process_count));
                }
            }
        }
        if previous_health == PerformanceMonitorHealth::Degraded && self.health
            != PerformanceMonitorHealth::Degraded {
            let ghost changes = semantic_events(events@);
            events.push(
                PerformanceSemanticEvent::MonitorRecovered(
                    PerformanceMonitorStateEventData {
                        observed_at_unix_ms: at,
                        health: self.health,
                        failure_code: None,
                        consecutive_failures: 0,
                        terminal: false,
                        unavailable_metrics: unavailable,
                    },
                ),
            );
            assert(semantic_events(events@) =~= changes.push(
                recovered_event(at, before.health_after(sample), sample),
            ));
        }
        assert(semantic_events(events@) == before.sample_events(config, sample));
        let due = match self.last_summary_unix_ms {
            None => true,
            Some(previous) => at.saturating_sub(previous) >= interval_ms,
        };
        if due {
            let ghost base = semantic_events(events@);
            proof {
                reveal_strlit("runtime");
            }
            let previous_summary = self.last_summary_unix_ms;
            self.last_summary_unix_ms = Some(at);
            let context = match self.context("runtime", at) {
                Ok(context) => context,
                Err(error) => {
                    self.last_summary_unix_ms = previous_summary;
                    return Err(error);
                },
            };
            events.push(
                PerformanceSemanticEvent::Summary(
                    Box::new(
                        PerformanceSummaryEventData {
                            context,
                            foreground,
                            owned_processes: owned,
                            third_party_high_load: third_party,
                        },
                    ),
                ),
            );
            assert(semantic_events(events@).drop_last() =~= base);
        }
        Ok(PerformanceTick { events, stop_sampling: false })
    }

    fn any_degraded(&self) -> (any: bool)
        requires
            self.wf_sets(),
        ensures
            any == (self@.degraded_metrics != Set::<PerformanceMetric>::empty()),
    {
        let any = self.degraded_metrics.len() > 0;
        proof {
            let keys = self.degraded_metrics.keys();
            if any {
                assert(keys.contains(keys[0]));
                assert(self@.degraded_metrics.contains(keys[0]));
            } else {
                assert(self@.degraded_metrics =~= Set::<PerformanceMetric>::empty());
            }
        }
        any
    }

    pub open spec fn wf_sets(&self) -> bool {
        self.degraded_metrics.wf()
    }

    fn update_pressures(
        &mut self,
        sample: &RawSystemSample,
        thresholds: &PerformanceThresholds,
        events: &mut Vec<PerformanceSemanticEvent>,
    )
        requires
            process_count_fits(*sample),
            semantic_events(old(events)@) == Seq::<SemanticEventView>::empty(),
        ensures
            *final(self) == (PerformanceMonitor {
                active_pressures: pressures_after(
                    old(self).active_pressures,
                    *sample,
                    *thresholds,
                ),
                ..*old(self)
            }),
            semantic_events(final(events)@) == pressure_events(
                old(self).active_pressures,
                *sample,
                *thresholds,
            ),
    {
        let ghost start = self.active_pressures;
        let ghost limits = *thresholds;
        if let Ok(values) = pressure_measurements(sample) {
            let at: u64 = sample.observed_at_unix_ms;
            proof {
                assert(values.of(PerformancePressureKind::Cpu) == measured(
                    *sample,
                    PerformancePressureKind::Cpu,
                ));
                assert(values.of(PerformancePressureKind::Ram) == measured(
                    *sample,
                    PerformancePressureKind::Ram,
                ));
                assert(values.of(PerformancePressureKind::DiskIo) == measured(
                    *sample,
                    PerformancePressureKind::DiskIo,
                ));
                assert(values.of(PerformancePressureKind::Gpu) == measured(
                    *sample,
                    PerformancePressureKind::Gpu,
                ));
                assert(values.of(PerformancePressureKind::ThirdParty) == measured(
                    *sample,
                    PerformancePressureKind::ThirdParty,
                ));
            }
            let cpu = step_pressure(
                self.active_pressures.cpu,
                values.cpu,
                PerformancePressureKind::Cpu,
                at,
                thresholds,
                events,
            );
            let ram = step_pressure(
                self.active_pressures.ram,
                values.ram,
                PerformancePressureKind::Ram,
                at,
                thresholds,
                events,
            );
            let disk_io = step_pressure(
                self.active_pressures.disk_io,
                values.disk_io,
                PerformancePressureKind::DiskIo,
                at,
                thresholds,
                events,
            );
            let gpu = step_pressure(
                self.active_pressures.gpu,
                values.gpu,
                PerformancePressureKind::Gpu,
                at,
                thresholds,
                events,
            );
            let third_party = step_pressure(
                self.active_pressures.third_party,
                values.third_party,
                PerformancePressureKind::ThirdParty,
                at,
                thresholds,
                events,
            );
            self.active_pressures.cpu = cpu;
            self.active_pressures.ram = ram;
            self.active_pressures.disk_io = disk_io;
            self.active_pressures.gpu = gpu;
            self.active_pressures.third_party = third_party;
            assert(semantic_events(events@) =~= pressure_events(start, *sample, limits));
        }
    }

    fn ingest_monitor_failure(
        &mut self,
        observed_at_unix_ms: u64,
        code: &'static str,
        domain: MonitorFailureDomain,
    ) -> (result: RuntimeHostResult<PerformanceTick>)
        requires
            old(self).wf(),
        ensures
            final(self).wf(),
            final(self)@ == old(self)@.after_failure(observed_at_unix_ms, code@, domain).0,
            is_failure_result(
                result,
                old(self)@.after_failure(observed_at_unix_ms, code@, domain).1,
            ),
    {
        let limit: u16 = match &self.config {
            Some(config) => config.max_consecutive_failures,
            None => {
                return Err(
                    performance_fatal(
                        "performance_monitor_disabled",
                        "record_performance_monitor_failure",
                    ),
                );
            },
        };
        if observed_at_unix_ms == 0 || !valid_error_code(code) {
            return Err(
                performance_fatal(
                    "performance_monitor_failure_invalid",
                    "record_performance_monitor_failure",
                ),
            );
        }
        let before: u16 = match domain {
            MonitorFailureDomain::Sampler => self.consecutive_sampler_failures,
            MonitorFailureDomain::Pipeline => self.consecutive_pipeline_failures,
        };
        let failures: u16 = match before.checked_add(1) {
            Some(failures) => failures,
            None => {
                return Err(
                    performance_fatal(
                        "performance_failure_count_overflow",
                        "record_performance_monitor_failure",
                    ),
                );
            },
        };
        let terminal = failures >= limit;
        let metrics = match domain {
            MonitorFailureDomain::Sampler => host_metrics(),
            MonitorFailureDomain::Pipeline => pipeline_metrics(),
        };
        self.health = PerformanceMonitorHealth::Degraded;
        add_metrics(&mut self.degraded_metrics, &metrics);
        match domain {
            MonitorFailureDomain::Sampler => {
                self.consecutive_sampler_failures = failures;
                if terminal {
                    self.sampling_stopped = true;
                }
            },
            MonitorFailureDomain::Pipeline => {
                self.consecutive_pipeline_failures = failures;
                if terminal {
                    self.pipeline_stopped = true;
                }
            },
        }
        let mut events: Vec<PerformanceSemanticEvent> = Vec::new();
        if failures == 1 || terminal {
            events.push(
                PerformanceSemanticEvent::MonitorDegraded(
                    PerformanceMonitorStateEventData {
                        observed_at_unix_ms,
                        health: PerformanceMonitorHealth::Degraded,
                        failure_code: Some(String::from_str(code)),
                        consecutive_failures: failures,
                        terminal,
                        unavailable_metrics: metrics,
                    },
                ),
            );
        }
        assert(semantic_events(events@) =~= old(self)@.after_failure(
            observed_at_unix_ms,
            code@,
            domain,
        ).1->Ok_0.0);
        Ok(
            PerformanceTick {
                events,
                stop_sampling: terminal && domain == MonitorFailureDomain::Sampler,
            },
        )
    }

    fn record_related_event(&mut self, observed_at_unix_ms: u64, event_id: u128) -> (result:
        RuntimeHostResult<()>)
        requires
            old(self).wf(),
        ensures
            final(self).wf(),
            match old(self).config {
                None => result == Err::<(), _>(
                    performance_error(
                        "performance_monitor_disabled",
                        "record_performance_event_reference",
                    ),
                ) && final(self)@ == old(self)@,
                Some(config) => result is Ok && final(self)@ == old(self)@.after_reference(
                    config,
                    observed_at_unix_ms,
                    event_id,
                ),
            },
    {
        let maximum: usize = match &self.config {
            Some(config) => config.max_event_references,
            None => {
                return Err(
                    performance_fatal(
                        "performance_monitor_disabled",
                        "record_performance_event_reference",
                    ),
                );
            },
        };
        let ghost before = self.event_references@;
        self.event_references.push_back(TimedEventReference { observed_at_unix_ms, event_id });
        let ghost pushed = self.event_references@;
        if self.event_references.len() > maximum {
            self.event_references.pop_front();
            assert(self.event_references@ =~= pushed.skip(pushed.len() - maximum));
        }
        Ok(())
    }

    /// Remembers the ledger event that a semantic event became.
    pub fn record_event_reference(&mut self, event: &PerformanceSemanticEvent, event_id: u128) -> (
    result: RuntimeHostResult<()>)
        requires
            old(self).wf(),
        ensures
            final(self).wf(),
            match old(self).config {
                None => result == Err::<(), _>(
                    performance_error(
                        "performance_monitor_disabled",
                        "record_performance_event_reference",
                    ),
                ) && final(self)@ == old(self)@,
                Some(config) => {
                    let noted = old(self)@.after_reference(config, event_time(event@), event_id);
                    &&& result is Ok
                    &&& final(self)@ == match event@ {
                        SemanticEventView::PressureStarted(data) => {
                            match noted.active_pressures.of(data.pressure.kind) {
                                Some(active) => MonitorView {
                                    active_pressures: noted.active_pressures.with(
                                        data.pressure.kind,
                                        Some(ActivePressure { event_id: Some(event_id), ..active }),
                                    ),
                                    ..noted
                                },
                                None => noted,
                            }
                        },
                        _ => noted,
                    }
                },
            },
    {
        self.record_related_event(event.observed_at_unix_ms(), event_id)?;
        if let PerformanceSemanticEvent::PressureStarted(data) = event {
            let kind = data.pressure.kind;
            match kind {
                PerformancePressureKind::Cpu => {
                    self.active_pressures.cpu = with_event(self.active_pressures.cpu, event_id);
                },
                PerformancePressureKind::Ram => {
                    self.active_pressures.ram = with_event(self.active_pressures.ram, event_id);
                },
                PerformancePressureKind::DiskIo => {
                    self.active_pressures.disk_io = with_event(
                        self.active_pressures.disk_io,
                        event_id,
                    );
                },
                PerformancePressureKind::Gpu => {
                    self.active_pressures.gpu = with_event(self.active_pressures.gpu, event_id);
                },
                PerformancePressureKind::ThirdParty => {
                    self.active_pressures.third_party = with_event(
                        self.active_pressures.third_party,
                        event_id,
                    );
                },
            }
        }
        Ok(())
    }

    /// Takes a failure to observe the pipeline, and the event that it is
    /// related to.
    pub fn record_monitor_failure(
        &mut self,
        observed_at_unix_ms: u64,
        code: &'static str,
        related_event_id: Option<u128>,
    ) -> (result: RuntimeHostResult<PerformanceTick>)
        requires
            old(self).wf(),
        ensures
            final(self).wf(),
            match old(self).config {
                None => {
                    &&& final(self)@ == old(self)@
                    &&& result matches Err(error) && error == performance_error(
                        "performance_monitor_disabled",
                        if related_event_id is Some {
                            "record_performance_event_reference"
                        } else {
                            "record_performance_monitor_failure"
                        },
                    )
                },
                Some(config) => {
                    let noted = match related_event_id {
                        Some(event_id) => old(self)@.after_reference(
                            config,
                            observed_at_unix_ms,
                            event_id,
                        ),
                        None => old(self)@,
                    };
                    let (state, step) = noted.after_failure(
                        observed_at_unix_ms,
                        code@,
                        MonitorFailureDomain::Pipeline,
                    );
                    &&& final(self)@ == state
                    &&& is_failure_result(result, step)
                },
            },
    {
        if let Some(event_id) = related_event_id {
            self.record_related_event(observed_at_unix_ms, event_id)?;
        }
        self.ingest_monitor_failure(observed_at_unix_ms, code, MonitorFailureDomain::Pipeline)
    }

    /// Takes note that the pipeline was observed again. The monitor recovers
    /// once nothing else keeps it degraded.
    pub fn record_pipeline_success(&mut self, observed_at_unix_ms: u64) -> (result:
        RuntimeHostResult<Vec<PerformanceSemanticEvent>>)
        requires
            old(self).wf(),
        ensures
            final(self).wf(),
            ({
                let before = old(self)@;
                if before.pipeline_stopped || before.consecutive_pipeline_failures == 0 {
                    &&& final(self)@ == before
                    &&& result matches Ok(events) && events@.len() == 0
                } else {
                    let cleared = MonitorView {
                        consecutive_pipeline_failures: 0,
                        degraded_metrics: before.still_degraded(MonitorFailureDomain::Pipeline),
                        ..before
                    };
                    if before.sampling_stopped || before.consecutive_sampler_failures > 0
                        || cleared.degraded_metrics != Set::<PerformanceMetric>::empty()
                        || before.system_samples.len() == 0 {
                        &&& final(self)@ == cleared
                        &&& result matches Ok(events) && events@.len() == 0
                    } else {
                        let sample = before.system_samples.last();
                        &&& final(self)@ == (MonitorView { health: health_of(sample), ..cleared })
                        &&& result matches Ok(events) && semantic_events(events@) == seq![
                            recovered_event(observed_at_unix_ms, health_of(sample), sample),
                        ]
                    }
                }
            }),
    {
        let mut events: Vec<PerformanceSemanticEvent> = Vec::new();
        if self.pipeline_stopped || self.consecutive_pipeline_failures == 0 {
            return Ok(events);
        }
        self.consecutive_pipeline_failures = 0;
        let metrics = pipeline_metrics();
        remove_metrics(&mut self.degraded_metrics, &metrics);
        let any_degraded = self.any_degraded();
        let count: usize = self.system_samples.len();
        if self.sampling_stopped || self.consecutive_sampler_failures > 0 || any_degraded || count
            == 0 {
            return Ok(events);
        }
        let sample = &self.system_samples[count - 1];
        let health = sample_health(sample);
        let unavailable_metrics = copy_metrics(&sample.unavailable_metrics);
        let ghost last = *sample;
        self.health = health;
        events.push(
            PerformanceSemanticEvent::MonitorRecovered(
                PerformanceMonitorStateEventData {
                    observed_at_unix_ms,
                    health,
                    failure_code: None,
                    consecutive_failures: 0,
                    terminal: false,
                    unavailable_metrics,
                },
            ),
        );
        assert(semantic_events(events@) =~= seq![
            recovered_event(observed_at_unix_ms, health_of(last), last),
        ]);
        Ok(events)
    }
}

fn with_event(active: Option<ActivePressure>, event_id: u128) -> (result: Option<ActivePressure>)
    ensures
        result == match active {
            Some(active) => Some(ActivePressure { event_id: Some(event_id), ..active }),
            None => None,
        },
{
    match active {
        Some(pressure) => {
            let mut pressure = pressure;
            pressure.event_id = Some(event_id);
            Some(pressure)
        },
        None => None,
    }
}

fn step_pressure(
    active: Option<ActivePressure>,
    value: Option<PerformancePressureValue>,
    kind: PerformancePressureKind,
    at: u64,
    thresholds: &PerformanceThresholds,
    events: &mut Vec<PerformanceSemanticEvent>,
) -> (after: Option<ActivePressure>)
    ensures
        after == pressure_step(active, value, kind, at, *thresholds).0,
        semantic_events(final(events)@) == semantic_events(old(events)@) + pressure_step(
            active,
            value,
            kind,
            at,
            *thresholds,
        ).1,
{
    let ghost start = semantic_events(events@);
    if let (Some(current), Some(value)) = (active, value) {
        if pressure_above_end(kind, value, thresholds) {
            let mut next = current;
            next.record.last_observed_at_unix_ms = at;
            next.record.severity = pressure_severity(kind, value, thresholds);
            next.record.peak = peak_value(current.record.peak, value);
            assert(start =~= start + Seq::<SemanticEventView>::empty());
            return Some(next);
        }
    }
    if let Some(ended) = active {
        let mut record = ended.record;
        record.last_observed_at_unix_ms = at;
        events.push(
            PerformanceSemanticEvent::PressureEnded(
                PerformancePressureEventData { observed_at_unix_ms: at, pressure: record },
            ),
        );
    }
    let mut after: Option<ActivePressure> = None;
    if let Some(value) = value {
        if pressure_above_start(kind, value, thresholds) {
            let record = start_record(kind, value, at, thresholds);
            after = Some(ActivePressure { record, event_id: None });
            events.push(
                PerformanceSemanticEvent::PressureStarted(
                    PerformancePressureEventData { observed_at_unix_ms: at, pressure: record },
                ),
            );
        }
    }
    assert(semantic_events(events@) =~= start + pressure_step(
        active,
        value,
        kind,
        at,
        *thresholds,
    ).1);
    after
}

/// A sample is taken exactly where the monitor is on, the sample is valid, and
/// it is newer than the last one.
pub proof fn law_newer_samples_are_taken(monitor: MonitorView, sample: RawSystemSample)
    ensures
        monitor.sample_refusal(sample) is None <==> {
            &&& monitor.config matches Some(config) && sample.valid(config.top_process_count)
            &&& monitor.system_samples.len() > 0 ==> sample.observed_at_unix_ms
                > monitor.system_samples.last().observed_at_unix_ms
        },
{
}

/// A sample ends a row of failures: it starts the count anew, and brings back
/// every metric of the host. The monitor stays degraded only for what the
/// pipeline lost, and its recovery is told exactly where it was degraded
/// before and is not now.
pub proof fn law_sample_ends_the_failures(
    monitor: MonitorView,
    config: PerformanceMonitorConfig,
    sample: RawSystemSample,
    metric: PerformanceMetric,
)
    ensures
        ({
            let after = monitor.after_sample(config, sample);
            let events = monitor.sample_events(config, sample);
            let told = pressure_events(monitor.active_pressures, sample, config.thresholds);
            let recovered = monitor.health == PerformanceMonitorHealth::Degraded && after.health
                != PerformanceMonitorHealth::Degraded;
            &&& after.consecutive_sampler_failures == 0
            &&& after.consecutive_pipeline_failures == monitor.consecutive_pipeline_failures
            &&& after.sampling_stopped == monitor.sampling_stopped && after.pipeline_stopped
                == monitor.pipeline_stopped
            &&& after.degraded_metrics.contains(metric) <==> monitor.degraded_metrics.contains(
                metric,
            ) && is_pipeline_metric(metric)
            &&& monitor.pipeline_stopped || monitor.consecutive_pipeline_failures > 0
                ==> after.health == PerformanceMonitorHealth::Degraded
            &&& !monitor.pipeline_stopped && monitor.consecutive_pipeline_failures == 0 && (
            forall|lost: PerformanceMetric|
                monitor.degraded_metrics.contains(lost) ==> !is_pipeline_metric(lost))
                ==> after.health == health_of(sample)
            &&& events.len() == told.len() + if recovered {
                1int
            } else {
                0
            }
            &&& events.take(told.len() as int) =~= told
            &&& recovered ==> (events.last() matches SemanticEventView::MonitorRecovered(data)
                && data.health == after.health && data.observed_at_unix_ms
                == sample.observed_at_unix_ms && data.consecutive_failures == 0 && !data.terminal)
        }),
{
    law_domains_divide_metrics(MonitorFailureDomain::Sampler, metric);
    let left = monitor.still_degraded(MonitorFailureDomain::Sampler);
    assert forall|lost: PerformanceMetric| left.contains(lost) implies monitor.degraded_metrics.contains(
        lost,
    ) && is_pipeline_metric(lost) by {
        law_domains_divide_metrics(MonitorFailureDomain::Sampler, lost);
    }
    if forall|lost: PerformanceMetric|
        monitor.degraded_metrics.contains(lost) ==> !is_pipeline_metric(lost) {
        assert forall|lost: PerformanceMetric| !left.contains(lost) by {
            if left.contains(lost) {
                assert(monitor.degraded_metrics.contains(lost));
                assert(is_pipeline_metric(lost));
            }
        }
        assert(left =~= Set::<PerformanceMetric>::empty());
    }
}

/// A summary is due with the first sample, and from then on once its interval
/// has passed since the last one; it is dated at the sample.
pub proof fn law_summaries_keep_their_interval(
    monitor: MonitorView,
    config: PerformanceMonitorConfig,
    sample: RawSystemSample,
)
    requires
        0 < config.summary_interval.millis <= u64::MAX,
    ensures
        ({
            let due = monitor.summary_due(sample, config.summary_interval.millis as u64);
            let after = monitor.after_sample(config, sample);
            &&& due <==> (monitor.last_summary_unix_ms matches Some(last)
                ==> sample.observed_at_unix_ms >= last + config.summary_interval.millis)
            &&& due ==> after.last_summary_unix_ms == Some(sample.observed_at_unix_ms)
            &&& !due ==> after.last_summary_unix_ms == monitor.last_summary_unix_ms
        }),
{
}

/// One more failure of a domain counts one more, degrades the monitor and
/// loses the metrics of that domain. The first of a row is told, and the one
/// that reaches the limit, which ends the work of that domain; the other domain
/// goes on as before.
pub proof fn law_failures_in_a_row_stop_their_domain(
    monitor: MonitorView,
    at: u64,
    code: Seq<char>,
    domain: MonitorFailureDomain,
    metric: PerformanceMetric,
)
    requires
        monitor.config is Some,
        at > 0,
        error_code_valid(code),
        monitor.failures(domain) < u16::MAX,
    ensures
        ({
            let limit = monitor.config->0.max_consecutive_failures;
            let (after, step) = monitor.after_failure(at, code, domain);
            let count = monitor.failures(domain) + 1;
            &&& step is Ok
            &&& after.failures(domain) == count
            &&& after.health == PerformanceMonitorHealth::Degraded
            &&& after.degraded_metrics.contains(metric) <==> monitor.degraded_metrics.contains(
                metric,
            ) || is_pipeline_metric(metric) == (domain == MonitorFailureDomain::Pipeline)
            &&& after.system_samples == monitor.system_samples && after.active_pressures
                == monitor.active_pressures
            &&& domain == MonitorFailureDomain::Sampler ==> {
                &&& after.sampling_stopped <==> monitor.sampling_stopped || count >= limit
                &&& step->Ok_0.1 == (count >= limit)
                &&& after.pipeline_stopped == monitor.pipeline_stopped
                &&& after.consecutive_pipeline_failures == monitor.consecutive_pipeline_failures
            }
            &&& domain == MonitorFailureDomain::Pipeline ==> {
                &&& after.pipeline_stopped <==> monitor.pipeline_stopped || count >= limit
                &&& !step->Ok_0.1
                &&& after.sampling_stopped == monitor.sampling_stopped
                &&& after.consecutive_sampler_failures == monitor.consecutive_sampler_failures
            }
            &&& step->Ok_0.0.len() == if count == 1 || count >= limit {
                1int
            } else {
                0
            }
            &&& step->Ok_0.0.len() == 1 ==> (step->Ok_0.0[0]
                matches SemanticEventView::MonitorDegraded(data) && data.consecutive_failures
                == count && data.terminal == (count >= limit) && data.failure_code == Some(code)
                && data.observed_at_unix_ms == at)
        }),
{
    law_domains_divide_metrics(domain, metric);
}

/// A failure without a time or with a code that cannot be recorded, and one of
/// a monitor that is off, change nothing.
pub proof fn law_unusable_failure_changes_nothing(
    monitor: MonitorView,
    at: u64,
    code: Seq<char>,
    domain: MonitorFailureDomain,
)
    requires
        monitor.config is None || at == 0 || !error_code_valid(code),
    ensures
        monitor.after_failure(at, code, domain).0 == monitor,
        monitor.after_failure(at, code, domain).1 is Err,
{
}

/// The newest reference is kept, with as many before it as are allowed.
pub proof fn law_newest_references_stay(
    monitor: MonitorView,
    config: PerformanceMonitorConfig,
    at: u64,
    event_id: u128,
    index: int,
)
    requires
        config.max_event_references > 0,
    ensures
        ({
            let after = monitor.after_reference(config, at, event_id).event_references;
            let before = monitor.event_references;
            &&& after.len() <= config.max_event_references
            &&& after.len() > 0 && after.last().event_id == event_id
                && after.last().observed_at_unix_ms == at
            &&& before.len() < config.max_event_references ==> after.len() == before.len() + 1
            &&& 0 < index < after.len() ==> after[after.len() - 1 - index] == before[before.len()
                - index]
        }),
{
}

} // verus!
