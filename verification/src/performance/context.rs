//! The context of a failure: what the monitor saw in the time before it.

use vstd::prelude::*;

use crate::error::RuntimeHostResult;
use crate::ids::{lists_in_order, sorted_without_duplicates};
use crate::performance::config::{performance_error, performance_fatal, PerformanceThresholds};
use crate::performance::measure::{gathered, larger, largest, percentile_95};
use crate::performance::monitor::{
    action_effect_latency, any_signal, capture_latency, context_start, cpu_share, disk_latency,
    disk_queue, frame_gap, gpu_share, in_samples, in_signals, in_window, is_context,
    is_first_members, metric_unavailable, ram_share, recognition_latency, related_events,
    samples_in_window, signal_counts, unavailable_in_window, ActivePressure, PerformanceContext,
    PerformanceMonitor, MAX_RELATED_EVENTS,
};
use crate::performance::pressure::{
    process_count_fits, summarized_pressure, PerformancePressureKind, PressureRecords,
};
use crate::performance::sample::{
    all_metrics, lists_metric, PerformanceMetric, PerformanceMonitorHealth,
};
use crate::text::same_text;

verus! {

/// What a pass over the samples of a window gathers.
struct SampleScan {
    count: usize,
    max_cpu: Option<u64>,
    max_ram: Option<u64>,
    max_gpu: Option<u64>,
    queues: Vec<u64>,
    latencies: Vec<u64>,
    pressures: PressureRecords,
}

/// What a pass over the signals of a window gathers.
struct SignalScan {
    any: bool,
    frame_gap: Option<u64>,
    capture: Option<u64>,
    recognition: Option<u64>,
    action_effect: Option<u64>,
}

impl PerformanceMonitor {
    fn scan_samples(&self, from: u64, to: u64, thresholds: &PerformanceThresholds) -> (scan:
        SampleScan)
        requires
            forall|i: int|
                0 <= i < self.system_samples@.len() ==> process_count_fits(
                    #[trigger] self.system_samples@[i],
                ),
        ensures
            scan.count == samples_in_window(self.system_samples@, from, to),
            scan.max_cpu == largest(self.system_samples@, in_samples(from, to, cpu_share())),
            scan.max_ram == largest(self.system_samples@, in_samples(from, to, ram_share())),
            scan.max_gpu == largest(self.system_samples@, in_samples(from, to, gpu_share())),
            scan.queues@ == gathered(self.system_samples@, in_samples(from, to, disk_queue())),
            scan.latencies@ == gathered(
                self.system_samples@,
                in_samples(from, to, disk_latency()),
            ),
            forall|kind: PerformancePressureKind| #[trigger]
                scan.pressures.of(kind) == summarized_pressure(
                    self.system_samples@,
                    from,
                    to,
                    kind,
                    *thresholds,
                ),
    {
        let mut scan = SampleScan {
            count: 0,
            max_cpu: None,
            max_ram: None,
            max_gpu: None,
            queues: Vec::new(),
            latencies: Vec::new(),
            pressures: PressureRecords::none(),
        };
        let ghost all = self.system_samples@;
        let total: usize = self.system_samples.len();
        let mut index: usize = 0;
        assert(all.take(0) =~= Seq::empty());
        while index < total
            invariant
                index <= total == all.len(),
                all == self.system_samples@,
                forall|i: int| 0 <= i < all.len() ==> process_count_fits(#[trigger] all[i]),
                scan.count <= index,
                scan.count == samples_in_window(all.take(index as int), from, to),
                scan.max_cpu == largest(
                    all.take(index as int),
                    in_samples(from, to, cpu_share()),
                ),
                scan.max_ram == largest(
                    all.take(index as int),
                    in_samples(from, to, ram_share()),
                ),
                scan.max_gpu == largest(
                    all.take(index as int),
                    in_samples(from, to, gpu_share()),
                ),
                scan.queues@ == gathered(
                    all.take(index as int),
                    in_samples(from, to, disk_queue()),
                ),
                scan.latencies@ == gathered(
                    all.take(index as int),
                    in_samples(from, to, disk_latency()),
                ),
                forall|kind: PerformancePressureKind| #[trigger]
                    scan.pressures.of(kind) == summarized_pressure(
                        all.take(index as int),
                        from,
                        to,
                        kind,
                        *thresholds,
                    ),
            decreases total - index,
        {
            let sample = &self.system_samples[index];
            let ghost taken = all.take(index + 1);
            proof {
                assert(taken.drop_last() =~= all.take(index as int));
                assert(taken.last() == all[index as int]);
            }
            if from <= sample.observed_at_unix_ms && sample.observed_at_unix_ms <= to {
                scan.count = scan.count + 1;
                scan.max_cpu = larger(scan.max_cpu, Some(sample.cpu_total_basis_points as u64));
                scan.max_ram = larger(scan.max_ram, Some(sample.ram_used_basis_points as u64));
                let gpu: Option<u64> = match sample.gpu_basis_points {
                    Some(value) => Some(value as u64),
                    None => None,
                };
                scan.max_gpu = larger(scan.max_gpu, gpu);
                if let Some(value) = sample.disk_queue_depth_milli {
                    scan.queues.push(value as u64);
                }
                if let Some(value) = sample.disk_latency_micros {
                    scan.latencies.push(value);
                }
                scan.pressures.add(sample, thresholds);
            }
            index += 1;
        }
        assert(all.take(all.len() as int) =~= all);
        scan
    }

    fn scan_signals(&self, instance_id: &str, from: u64, to: u64) -> (scan: SignalScan)
        ensures
            scan.any == any_signal(self.pipeline_samples@, instance_id@, from, to),
            scan.frame_gap == largest(
                self.pipeline_samples@,
                in_signals(instance_id@, from, to, frame_gap()),
            ),
            scan.capture == largest(
                self.pipeline_samples@,
                in_signals(instance_id@, from, to, capture_latency()),
            ),
            scan.recognition == largest(
                self.pipeline_samples@,
                in_signals(instance_id@, from, to, recognition_latency()),
            ),
            scan.action_effect == largest(
                self.pipeline_samples@,
                in_signals(instance_id@, from, to, action_effect_latency()),
            ),
    {
        let mut scan = SignalScan {
            any: false,
            frame_gap: None,
            capture: None,
            recognition: None,
            action_effect: None,
        };
        let ghost all = self.pipeline_samples@;
        let total: usize = self.pipeline_samples.len();
        let mut index: usize = 0;
        assert(all.take(0) =~= Seq::empty());
        while index < total
            invariant
                index <= total == all.len(),
                all == self.pipeline_samples@,
                scan.any == any_signal(all.take(index as int), instance_id@, from, to),
                scan.frame_gap == largest(
                    all.take(index as int),
                    in_signals(instance_id@, from, to, frame_gap()),
                ),
                scan.capture == largest(
                    all.take(index as int),
                    in_signals(instance_id@, from, to, capture_latency()),
                ),
                scan.recognition == largest(
                    all.take(index as int),
                    in_signals(instance_id@, from, to, recognition_latency()),
                ),
                scan.action_effect == largest(
                    all.take(index as int),
                    in_signals(instance_id@, from, to, action_effect_latency()),
                ),
            decreases total - index,
        {
            let signal = &self.pipeline_samples[index];
            let ghost taken = all.take(index + 1);
            proof {
                assert(taken.drop_last() =~= all.take(index as int));
                assert(taken.last() == all[index as int]);
                assert(any_signal(taken, instance_id@, from, to) == (any_signal(
                    all.take(index as int),
                    instance_id@,
                    from,
                    to,
                ) || signal_counts(all[index as int], instance_id@, from, to))) by {
                    assert forall|i: int| 0 <= i < index implies taken[i] == all.take(
                        index as int,
                    )[i] by {}
                    if any_signal(all.take(index as int), instance_id@, from, to) {
                        let w = choose|i: int|
                            0 <= i < index && signal_counts(
                                #[trigger] all.take(index as int)[i],
                                instance_id@,
                                from,
                                to,
                            );
                        assert(signal_counts(taken[w], instance_id@, from, to));
                    }
                    if signal_counts(all[index as int], instance_id@, from, to) {
                        assert(signal_counts(taken[index as int], instance_id@, from, to));
                    }
                    if any_signal(taken, instance_id@, from, to) {
                        let w = choose|i: int|
                            0 <= i < taken.len() && signal_counts(
                                #[trigger] taken[i],
                                instance_id@,
                                from,
                                to,
                            );
                        if w < index {
                            assert(signal_counts(
                                all.take(index as int)[w],
                                instance_id@,
                                from,
                                to,
                            ));
                        }
                    }
                }
            }
            if same_text(signal.instance_id.as_str(), instance_id) && from
                <= signal.observed_at_unix_ms && signal.observed_at_unix_ms <= to {
                scan.any = true;
                scan.frame_gap = larger(scan.frame_gap, signal.frame_gap_ms);
                scan.capture = larger(scan.capture, signal.capture_latency_ms);
                scan.recognition = larger(scan.recognition, signal.recognition_latency_ms);
                scan.action_effect = larger(scan.action_effect, signal.action_effect_latency_ms);
            }
            index += 1;
        }
        assert(all.take(all.len() as int) =~= all);
        scan
    }

    fn window_lacks(&self, from: u64, to: u64, metric: PerformanceMetric) -> (lacks: bool)
        requires
            self.wf(),
        ensures
            lacks == metric_unavailable(self@, from, to, metric),
    {
        if self.degraded_metrics.contains(&metric) {
            return true;
        }
        let ghost all = self.system_samples@;
        let total: usize = self.system_samples.len();
        let mut index: usize = 0;
        while index < total
            invariant
                index <= total == all.len(),
                all == self.system_samples@,
                !self@.degraded_metrics.contains(metric),
                forall|i: int|
                    0 <= i < index ==> !(in_window(
                        (#[trigger] all[i]).observed_at_unix_ms,
                        from,
                        to,
                    ) && all[i].unavailable_metrics@.contains(metric)),
            decreases total - index,
        {
            let sample = &self.system_samples[index];
            if from <= sample.observed_at_unix_ms && sample.observed_at_unix_ms <= to
                && lists_metric(&sample.unavailable_metrics, metric) {
                assert(in_window(all[index as int].observed_at_unix_ms, from, to));
                return true;
            }
            index += 1;
        }
        false
    }

    fn list_unavailable(&self, from: u64, to: u64, any_sample: bool) -> (metrics: Vec<
        PerformanceMetric,
    >)
        requires
            self.wf(),
            any_sample == (samples_in_window(self.system_samples@, from, to) > 0),
        ensures
            metrics@ == unavailable_in_window(self@, from, to),
    {
        let every = all_metrics();
        if !any_sample {
            return every;
        }
        let ghost lacks = |metric: PerformanceMetric| metric_unavailable(self@, from, to, metric);
        let mut metrics: Vec<PerformanceMetric> = Vec::new();
        let mut index: usize = 0;
        proof {
            reveal(Seq::filter);
            assert(every@.take(0) =~= Seq::empty());
        }
        while index < every.len()
            invariant
                index <= every.len(),
                self.wf(),
                lacks == (|metric: PerformanceMetric| metric_unavailable(self@, from, to, metric)),
                metrics@ == every@.take(index as int).filter(lacks),
            decreases every.len() - index,
        {
            proof {
                reveal(Seq::filter);
                assert(every@.take(index + 1).drop_last() =~= every@.take(index as int));
                assert(every@.take(index + 1).last() == every@[index as int]);
            }
            if self.window_lacks(from, to, every[index]) {
                metrics.push(every[index]);
            }
            index += 1;
        }
        assert(every@.take(every@.len() as int) =~= every@);
        metrics
    }

    fn list_related(&self, from: u64, to: u64) -> (ids: Vec<u128>)
        ensures
            is_first_members(ids@, related_events(self@, from, to), MAX_RELATED_EVENTS as int),
            (ids@.len() == 0) == (related_events(self@, from, to) == Set::<u128>::empty()),
    {
        let mut found: Vec<u128> = Vec::new();
        let ghost all = self.event_references@;
        let total: usize = self.event_references.len();
        let mut index: usize = 0;
        while index < total
            invariant
                index <= total == all.len(),
                all == self.event_references@,
                forall|id: u128| #[trigger]
                    found@.contains(id) == exists|i: int|
                        0 <= i < index && in_window(
                            (#[trigger] all[i]).observed_at_unix_ms,
                            from,
                            to,
                        ) && all[i].event_id == id,
            decreases total - index,
        {
            let reference = self.event_references[index];
            let ghost before = found@;
            let inside = from <= reference.observed_at_unix_ms && reference.observed_at_unix_ms
                <= to;
            if inside {
                found.push(reference.event_id);
            }
            proof {
                assert forall|id: u128| #[trigger] found@.contains(id) == exists|i: int|
                    0 <= i < index + 1 && in_window(
                        (#[trigger] all[i]).observed_at_unix_ms,
                        from,
                        to,
                    ) && all[i].event_id == id by {
                    if before.contains(id) {
                        let k = before.index_of(id);
                        assert(found@[k] == id);
                        let w = choose|i: int|
                            0 <= i < index && in_window(
                                (#[trigger] all[i]).observed_at_unix_ms,
                                from,
                                to,
                            ) && all[i].event_id == id;
                        assert(all[w].event_id == id);
                    }
                    if found@.contains(id) && !before.contains(id) {
                        let k = found@.index_of(id);
                        if k < before.len() {
                            assert(before[k] == id);
                        }
                        assert(all[index as int].event_id == id);
                    }
                    if inside && all[index as int].event_id == id {
                        assert(found@[before.len() as int] == id);
                    }
                }
            }
            index += 1;
        }
        let ghost referenced = found@;
        let pressures = self.active_pressures;
        push_event(&mut found, pressures.cpu);
        push_event(&mut found, pressures.ram);
        push_event(&mut found, pressures.disk_io);
        push_event(&mut found, pressures.gpu);
        push_event(&mut found, pressures.third_party);
        let ghost related = related_events(self@, from, to);
        proof {
            assert forall|id: u128| #[trigger] found@.to_set().contains(id) == related.contains(
                id,
            ) by {
                let active = self.active_pressures;
                assert(active.of(PerformancePressureKind::Cpu) == active.cpu);
                assert(active.of(PerformancePressureKind::Ram) == active.ram);
                assert(active.of(PerformancePressureKind::DiskIo) == active.disk_io);
                assert(active.of(PerformancePressureKind::Gpu) == active.gpu);
                assert(active.of(PerformancePressureKind::ThirdParty) == active.third_party);
                if active.event_ids().contains(id) {
                    let kind = choose|kind: PerformancePressureKind|
                        (#[trigger] active.of(kind)) matches Some(a) && a.event_id == Some(id);
                    assert(found@.contains(id));
                }
                assert(referenced.contains(id) ==> found@.contains(id));
            }
            assert(found@.to_set() =~= related);
        }
        let mut sorted = sorted_without_duplicates(&found);
        let ghost listing = sorted@;
        proof {
            if listing.len() > 0 {
                assert(listing.to_set().contains(listing[0]));
            }
            if related != Set::<u128>::empty() {
                if listing.len() == 0 {
                    assert(listing.to_set() =~= Set::<u128>::empty());
                }
            }
        }
        if sorted.len() > MAX_RELATED_EVENTS {
            sorted.truncate(MAX_RELATED_EVENTS);
            assert(sorted@ =~= listing.take(MAX_RELATED_EVENTS as int));
        } else {
            assert(sorted@ =~= listing.take(listing.len() as int));
        }
        assert(lists_in_order(listing, related));
        sorted
    }

    /// What the monitor knows of an instance in the time before an instant.
    pub fn context(&self, instance_id: &str, window_end_unix_ms: u64) -> (result: RuntimeHostResult<
        PerformanceContext,
    >)
        requires
            self.wf(),
        ensures
            if instance_id@.len() == 0 || window_end_unix_ms == 0 {
                result matches Err(error) && error == performance_error(
                    "performance_context_query_invalid",
                    "read_performance_context",
                )
            } else if self.config matches Some(config) && samples_in_window(
                self.system_samples@,
                context_start(config, window_end_unix_ms),
                window_end_unix_ms,
            ) > u32::MAX {
                result matches Err(error) && error == performance_error(
                    "performance_sample_count_overflow",
                    "read_performance_context",
                )
            } else {
                result matches Ok(context) && is_context(
                    context@,
                    self@,
                    instance_id@,
                    window_end_unix_ms,
                )
            },
    {
        if instance_id.is_empty() || window_end_unix_ms == 0 {
            return Err(
                performance_fatal("performance_context_query_invalid", "read_performance_context"),
            );
        }
        let config = match &self.config {
            Some(config) => config,
            None => {
                return Ok(PerformanceContext::unavailable(window_end_unix_ms));
            },
        };
        let window_ms: u64 = config.context_window.millis as u64;
        let from: u64 = if window_end_unix_ms > window_ms {
            window_end_unix_ms - window_ms
        } else {
            1
        };
        let to: u64 = window_end_unix_ms;
        assert(from == context_start(*config, to));
        assert forall|i: int| 0 <= i < self.system_samples@.len() implies process_count_fits(
            #[trigger] self.system_samples@[i],
        ) by {
            assert(self@.system_samples[i].valid(config.top_process_count));
        }
        let mut samples = self.scan_samples(from, to, &config.thresholds);
        let signals = self.scan_signals(instance_id, from, to);
        let related_event_ids = self.list_related(from, to);
        if samples.count == 0 && !signals.any && related_event_ids.len() == 0 {
            return Ok(PerformanceContext::unavailable(window_end_unix_ms));
        }
        let unavailable_metrics = self.list_unavailable(from, to, samples.count > 0);
        let health = if samples.count == 0 {
            PerformanceMonitorHealth::Unavailable
        } else if self.health == PerformanceMonitorHealth::Degraded {
            PerformanceMonitorHealth::Degraded
        } else if unavailable_metrics.len() == 0 {
            PerformanceMonitorHealth::Healthy
        } else {
            PerformanceMonitorHealth::Partial
        };
        if samples.count as u64 > u32::MAX as u64 {
            return Err(
                performance_fatal("performance_sample_count_overflow", "read_performance_context"),
            );
        }
        proof {
            let records = samples.pressures;
            assert(records.of(PerformancePressureKind::Cpu) == records.cpu);
            assert(records.of(PerformancePressureKind::Ram) == records.ram);
            assert(records.of(PerformancePressureKind::DiskIo) == records.disk_io);
            assert(records.of(PerformancePressureKind::Gpu) == records.gpu);
            assert(records.of(PerformancePressureKind::ThirdParty) == records.third_party);
        }
        Ok(
            PerformanceContext {
                window_start_unix_ms: from,
                window_end_unix_ms,
                health,
                sample_count: samples.count as u32,
                unavailable_metrics,
                pressures: samples.pressures.list(),
                max_cpu_basis_points: samples.max_cpu,
                max_ram_basis_points: samples.max_ram,
                disk_queue_depth_p95_milli: percentile_95(&mut samples.queues),
                disk_latency_p95_micros: percentile_95(&mut samples.latencies),
                max_gpu_basis_points: samples.max_gpu,
                max_frame_gap_ms: signals.frame_gap,
                max_capture_latency_ms: signals.capture,
                max_recognition_latency_ms: signals.recognition,
                max_action_effect_latency_ms: signals.action_effect,
                related_event_ids,
            },
        )
    }
}

fn push_event(ids: &mut Vec<u128>, active: Option<ActivePressure>)
    ensures
        forall|id: u128| #[trigger]
            final(ids)@.contains(id) == (old(ids)@.contains(id) || (active matches Some(pressure)
                && pressure.event_id == Some(id))),
{
    let ghost before = ids@;
    if let Some(pressure) = active {
        if let Some(event_id) = pressure.event_id {
            ids.push(event_id);
            assert(ids@[before.len() as int] == event_id);
        }
    }
    assert forall|id: u128| #[trigger] ids@.contains(id) == (before.contains(id) || (
    active matches Some(pressure) && pressure.event_id == Some(id))) by {
        if before.contains(id) {
            let k = before.index_of(id);
            assert(ids@[k] == id);
        }
        if ids@.contains(id) {
            let k = ids@.index_of(id);
            if k < before.len() {
                assert(before[k] == id);
            }
        }
    }
}

} // verus!
