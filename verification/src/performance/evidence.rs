//! What the control is told of the host: the freshest evidence, used once.

use vstd::prelude::*;

use crate::error::{RuntimeHostError, RuntimeHostResult};
use crate::performance::config::{
    performance_error, performance_fatal, PerformanceMonitorConfig,
};
use crate::performance::measure::{
    larger, larger_of, largest, lemma_largest, lemma_smallest, smaller, smallest,
};
use crate::performance::monitor::{
    signals_ordered, MonitorFailureDomain, MonitorView, PerformanceMonitor, CONTROL_SIGNALS,
};
use crate::performance::pressure::{third_party_pressure, third_party_pressure_basis_points};
use crate::performance::sample::{lists_metric, PerformanceMetric, RawSystemSample};
use crate::performance::signal::{
    pipeline_responsiveness_basis_points, responsiveness, PipelineEventObservation,
    PipelinePerformanceSignal,
};
use crate::performance_control::PerformanceControlObservation;

verus! {

/// Evidence counts when it is not from the future, newer than what was used
/// before, and not too old.
pub open spec fn is_fresh(
    sample_unix_ms: u64,
    observed_at_unix_ms: u64,
    last_sample_unix_ms: Option<u64>,
    freshness_ms: int,
) -> bool {
    &&& sample_unix_ms <= observed_at_unix_ms
    &&& last_sample_unix_ms matches Some(last) ==> sample_unix_ms > last
    &&& observed_at_unix_ms - sample_unix_ms <= freshness_ms
}

pub fn is_fresh_control_sample(
    sample_unix_ms: u64,
    observed_at_unix_ms: u64,
    last_sample_unix_ms: Option<u64>,
    freshness_ms: u64,
) -> (fresh: bool)
    ensures
        fresh == is_fresh(
            sample_unix_ms,
            observed_at_unix_ms,
            last_sample_unix_ms,
            freshness_ms as int,
        ),
{
    let newer = match last_sample_unix_ms {
        Some(last) => sample_unix_ms > last,
        None => true,
    };
    sample_unix_ms <= observed_at_unix_ms && newer && observed_at_unix_ms - sample_unix_ms
        <= freshness_ms
}

/// The latest signals.
pub open spec fn latest_signals(signals: Seq<PipelinePerformanceSignal>) -> Seq<
    PipelinePerformanceSignal,
> {
    if signals.len() > CONTROL_SIGNALS {
        signals.skip(signals.len() - CONTROL_SIGNALS)
    } else {
        signals
    }
}

impl MonitorView {
    /// How old evidence may be.
    pub open spec fn freshness_ms(self) -> int {
        match self.config {
            Some(config) => config.sample_interval.millis * 2,
            None => 0,
        }
    }

    pub open spec fn fresh_at(self, sample_unix_ms: u64, observed_at_unix_ms: u64) -> bool {
        is_fresh(
            sample_unix_ms,
            observed_at_unix_ms,
            self.last_control_sample_unix_ms,
            self.freshness_ms(),
        )
    }

    /// The latest sample of the host, if it is fresh.
    pub open spec fn fresh_sample(self, observed_at_unix_ms: u64) -> Option<RawSystemSample> {
        if self.system_samples.len() > 0 && self.fresh_at(
            self.system_samples.last().observed_at_unix_ms,
            observed_at_unix_ms,
        ) {
            Some(self.system_samples.last())
        } else {
            None
        }
    }

    /// The responsiveness that a fresh signal shows.
    pub open spec fn fresh_responsiveness(self, observed_at_unix_ms: u64) -> spec_fn(
        PipelinePerformanceSignal,
    ) -> Option<u16> {
        |signal: PipelinePerformanceSignal|
            if self.fresh_at(signal.observed_at_unix_ms, observed_at_unix_ms) {
                responsiveness(signal)
            } else {
                None
            }
    }

    /// The time of a fresh signal that shows a responsiveness.
    pub open spec fn evidence_time(self, observed_at_unix_ms: u64) -> spec_fn(
        PipelinePerformanceSignal,
    ) -> Option<u64> {
        |signal: PipelinePerformanceSignal|
            if self.fresh_at(signal.observed_at_unix_ms, observed_at_unix_ms) && responsiveness(
                signal,
            ) is Some {
                Some(signal.observed_at_unix_ms)
            } else {
                None
            }
    }

    /// The worst responsiveness among the fresh ones of the latest signals.
    pub open spec fn host_responsiveness(self, observed_at_unix_ms: u64) -> Option<u16> {
        smallest(
            latest_signals(self.pipeline_samples),
            self.fresh_responsiveness(observed_at_unix_ms),
        )
    }

    /// The pressure of other programs, unknown without a fresh sample that
    /// measures processes.
    pub open spec fn outside_pressure(self, observed_at_unix_ms: u64) -> Option<u16> {
        match self.fresh_sample(observed_at_unix_ms) {
            Some(sample) => if sample.process_metrics_known() {
                Some(third_party_pressure(sample) as u16)
            } else {
                None
            },
            None => None,
        }
    }

    /// The time of the newest evidence.
    pub open spec fn source_time(self, observed_at_unix_ms: u64) -> Option<u64> {
        larger_of(
            match self.fresh_sample(observed_at_unix_ms) {
                Some(sample) => Some(sample.observed_at_unix_ms),
                None => None,
            },
            largest(
                latest_signals(self.pipeline_samples),
                self.evidence_time(observed_at_unix_ms),
            ),
        )
    }

    /// Something buffered comes from the future.
    pub open spec fn from_the_future(self, observed_at_unix_ms: u64) -> bool {
        (self.system_samples.len() > 0 && self.system_samples.last().observed_at_unix_ms
            > observed_at_unix_ms) || (self.pipeline_samples.len() > 0
            && self.pipeline_samples.last().observed_at_unix_ms > observed_at_unix_ms)
    }

    /// The observation for the control; none without evidence.
    pub open spec fn evidence(self, observed_at_unix_ms: u64) -> Option<
        PerformanceControlObservation,
    > {
        let responsiveness = self.host_responsiveness(observed_at_unix_ms);
        let pressure = self.outside_pressure(observed_at_unix_ms);
        if responsiveness is None && pressure is None {
            None
        } else {
            Some(
                PerformanceControlObservation {
                    observed_at_unix_ms: self.source_time(observed_at_unix_ms)->0,
                    host_responsiveness_basis_points: responsiveness,
                    third_party_pressure_basis_points: pressure,
                    foreground_fullscreen: match self.fresh_sample(observed_at_unix_ms) {
                        Some(sample) => match sample.foreground {
                            Some(foreground) => foreground.fullscreen,
                            None => false,
                        },
                        None => false,
                    },
                },
            )
        }
    }
}

impl PerformanceMonitor {
    /// Hands the fresh evidence to the control. What was handed out once is
    /// not fresh again.
    pub fn control_observation(&mut self, observed_at_unix_ms: u64) -> (result: RuntimeHostResult<
        Option<PerformanceControlObservation>,
    >)
        requires
            old(self).wf(),
        ensures
            final(self).wf(),
            if observed_at_unix_ms == 0 {
                &&& result == Err::<Option<PerformanceControlObservation>, _>(
                    performance_error(
                        "performance_control_time_invalid",
                        "read_performance_control_observation",
                    ),
                )
                &&& final(self)@ == old(self)@
            } else if old(self).config is None {
                &&& result == Err::<Option<PerformanceControlObservation>, _>(
                    performance_error(
                        "performance_monitor_disabled",
                        "read_performance_control_observation",
                    ),
                )
                &&& final(self)@ == old(self)@
            } else if old(self)@.from_the_future(observed_at_unix_ms) {
                &&& result == Err::<Option<PerformanceControlObservation>, _>(
                    performance_error(
                        "performance_control_sample_time_invalid",
                        "read_performance_control_observation",
                    ),
                )
                &&& final(self)@ == old(self)@
            } else {
                let evidence = old(self)@.evidence(observed_at_unix_ms);
                &&& result == Ok::<_, RuntimeHostError>(evidence)
                &&& final(self)@ == match evidence {
                    Some(observation) => MonitorView {
                        last_control_sample_unix_ms: Some(observation.observed_at_unix_ms),
                        ..old(self)@
                    },
                    None => old(self)@,
                }
                &&& evidence matches Some(observation) ==> old(self)@.source_time(
                    observed_at_unix_ms,
                ) == Some(observation.observed_at_unix_ms) && old(self)@.fresh_at(
                    observation.observed_at_unix_ms,
                    observed_at_unix_ms,
                )
            },
    {
        if observed_at_unix_ms == 0 {
            return Err(
                performance_fatal(
                    "performance_control_time_invalid",
                    "read_performance_control_observation",
                ),
            );
        }
        let freshness_ms: u64 = match &self.config {
            Some(config) => config.sample_interval.millis as u64 * 2,
            None => {
                return Err(
                    performance_fatal(
                        "performance_monitor_disabled",
                        "read_performance_control_observation",
                    ),
                );
            },
        };
        let samples: usize = self.system_samples.len();
        let signals: usize = self.pipeline_samples.len();
        if (samples > 0 && self.system_samples[samples - 1].observed_at_unix_ms
            > observed_at_unix_ms) || (signals > 0 && self.pipeline_samples[signals
            - 1].observed_at_unix_ms > observed_at_unix_ms) {
            return Err(
                performance_fatal(
                    "performance_control_sample_time_invalid",
                    "read_performance_control_observation",
                ),
            );
        }
        let last_sample = self.last_control_sample_unix_ms;
        let mut pressure: Option<u16> = None;
        let mut source: Option<u64> = None;
        let mut fullscreen = false;
        if samples > 0 {
            let sample = &self.system_samples[samples - 1];
            if is_fresh_control_sample(
                sample.observed_at_unix_ms,
                observed_at_unix_ms,
                last_sample,
                freshness_ms,
            ) {
                source = Some(sample.observed_at_unix_ms);
                if !lists_metric(&sample.unavailable_metrics, PerformanceMetric::ProcessCpu)
                    && !lists_metric(&sample.unavailable_metrics, PerformanceMetric::ProcessIo) {
                    pressure = Some(third_party_pressure_basis_points(sample));
                }
                fullscreen = match &sample.foreground {
                    Some(foreground) => foreground.fullscreen,
                    None => false,
                };
            }
        }
        let ghost monitor = self@;
        let ghost latest = latest_signals(self.pipeline_samples@);
        let start: usize = if signals > CONTROL_SIGNALS {
            signals - CONTROL_SIGNALS
        } else {
            0
        };
        let mut worst: Option<u16> = None;
        let mut newest: Option<u64> = None;
        let mut index: usize = start;
        assert(latest.take(0) =~= Seq::empty());
        while index < signals
            invariant
                start <= index <= signals,
                signals == self.pipeline_samples@.len(),
                monitor == self@,
                latest == latest_signals(self.pipeline_samples@),
                latest.len() == signals - start,
                forall|i: int|
                    0 <= i < latest.len() ==> #[trigger] latest[i] == self.pipeline_samples@[i
                        + start],
                freshness_ms == monitor.freshness_ms(),
                last_sample == monitor.last_control_sample_unix_ms,
                worst == smallest(
                    latest.take(index - start),
                    monitor.fresh_responsiveness(observed_at_unix_ms),
                ),
                newest == largest(
                    latest.take(index - start),
                    monitor.evidence_time(observed_at_unix_ms),
                ),
                (worst is Some) == (newest is Some),
                newest matches Some(at) ==> monitor.fresh_at(at, observed_at_unix_ms),
            decreases signals - index,
        {
            let signal = &self.pipeline_samples[index];
            proof {
                let taken = latest.take(index + 1 - start);
                assert(taken.drop_last() =~= latest.take(index - start));
                assert(taken.last() == latest[index - start]);
            }
            if is_fresh_control_sample(
                signal.observed_at_unix_ms,
                observed_at_unix_ms,
                last_sample,
                freshness_ms,
            ) {
                let shown = pipeline_responsiveness_basis_points(signal);
                worst = smaller(worst, shown);
                if shown.is_some() {
                    newest = larger(newest, Some(signal.observed_at_unix_ms));
                }
            }
            index += 1;
        }
        assert(latest.take(latest.len() as int) =~= latest);
        if worst.is_none() && pressure.is_none() {
            return Ok(None);
        }
        match larger(source, newest) {
            Some(at) => {
                self.last_control_sample_unix_ms = Some(at);
                Ok(
                    Some(
                        PerformanceControlObservation {
                            observed_at_unix_ms: at,
                            host_responsiveness_basis_points: worst,
                            third_party_pressure_basis_points: pressure,
                            foreground_fullscreen: fullscreen,
                        },
                    ),
                )
            },
            None => Err(
                performance_fatal(
                    "performance_control_sample_missing",
                    "read_performance_control_observation",
                ),
            ),
        }
    }
}

proof fn lemma_nothing_smallest<T>(items: Seq<T>, value: spec_fn(T) -> Option<u16>)
    requires
        forall|i: int| 0 <= i < items.len() ==> value(#[trigger] items[i]) is None,
    ensures
        smallest(items, value) is None,
    decreases items.len(),
{
    if items.len() > 0 {
        let before = items.drop_last();
        assert forall|i: int| 0 <= i < before.len() implies value(#[trigger] before[i]) is None by {
            assert(before[i] == items[i]);
        }
        lemma_nothing_smallest(before, value);
        assert(items.last() == items[items.len() - 1]);
    }
}

/// What is handed out carries the time of fresh evidence.
proof fn lemma_evidence_is_fresh(monitor: MonitorView, at: u64)
    requires
        monitor.evidence(at) is Some,
    ensures
        monitor.source_time(at) == Some(monitor.evidence(at)->0.observed_at_unix_ms),
        monitor.fresh_at(monitor.evidence(at)->0.observed_at_unix_ms, at),
{
    let latest = latest_signals(monitor.pipeline_samples);
    let times = monitor.evidence_time(at);
    let shown = monitor.fresh_responsiveness(at);
    lemma_largest(latest, times);
    if largest(latest, times) is None {
        assert forall|i: int| 0 <= i < latest.len() implies shown(#[trigger] latest[i]) is None by {
            assert(times(latest[i]) is None);
        }
        lemma_nothing_smallest(latest, shown);
    } else {
        let newest = largest(latest, times)->0;
        let i = choose|i: int| 0 <= i < latest.len() && times(#[trigger] latest[i]) == Some(newest);
        assert(monitor.fresh_at(latest[i].observed_at_unix_ms, at));
    }
}

/// Observations for the control get newer and newer: whatever the monitor
/// takes in between, a later one carries a later time than any before it.
pub proof fn law_observations_get_newer(
    monitor: MonitorView,
    first_at: u64,
    later: MonitorView,
    second_at: u64,
)
    requires
        monitor.evidence(first_at) is Some,
        later.last_control_sample_unix_ms matches Some(last) && last >= monitor.evidence(
            first_at,
        )->0.observed_at_unix_ms,
    ensures
        monitor.last_control_sample_unix_ms matches Some(last) ==> monitor.evidence(
            first_at,
        )->0.observed_at_unix_ms > last,
        later.evidence(second_at) matches Some(second) ==> second.observed_at_unix_ms
            > monitor.evidence(first_at)->0.observed_at_unix_ms,
{
    lemma_evidence_is_fresh(monitor, first_at);
    if later.evidence(second_at) is Some {
        lemma_evidence_is_fresh(later, second_at);
    }
}

/// Nothing that a monitor takes in lets used evidence count again: samples,
/// failures, signals, events and references leave the time of the last
/// observation as it is.
pub proof fn law_intake_keeps_used_evidence(
    monitor: MonitorView,
    config: PerformanceMonitorConfig,
    sample: RawSystemSample,
    signal: PipelinePerformanceSignal,
    observation: PipelineEventObservation,
    domain: MonitorFailureDomain,
    code: Seq<char>,
    at: u64,
    event_id: u128,
)
    ensures
        monitor.after_sample(config, sample).last_control_sample_unix_ms
            == monitor.last_control_sample_unix_ms,
        monitor.after_failure(at, code, domain).0.last_control_sample_unix_ms
            == monitor.last_control_sample_unix_ms,
        monitor.after_signal(signal).0.last_control_sample_unix_ms
            == monitor.last_control_sample_unix_ms,
        monitor.after_event(observation).0.last_control_sample_unix_ms
            == monitor.last_control_sample_unix_ms,
        monitor.after_reference(config, at, event_id).last_control_sample_unix_ms
            == monitor.last_control_sample_unix_ms,
{
}

/// Evidence that was handed out is not handed out again: a second question,
/// with nothing new observed in between, has no answer.
pub proof fn law_evidence_is_used_once(monitor: MonitorView, first_at: u64, second_at: u64)
    requires
        monitor.evidence(first_at) is Some,
        monitor.source_time(first_at) is Some,
        monitor.fresh_at(monitor.source_time(first_at)->0, first_at),
        !monitor.from_the_future(first_at),
        signals_ordered(monitor.pipeline_samples),
        first_at <= second_at,
    ensures
        (MonitorView {
            last_control_sample_unix_ms: Some(monitor.evidence(first_at)->0.observed_at_unix_ms),
            ..monitor
        }).evidence(second_at) is None,
{
    let latest = latest_signals(monitor.pipeline_samples);
    let value = monitor.evidence_time(first_at);
    lemma_largest(latest, value);
    let used = MonitorView {
        last_control_sample_unix_ms: Some(monitor.evidence(first_at)->0.observed_at_unix_ms),
        ..monitor
    };
    let again = used.fresh_responsiveness(second_at);
    assert forall|i: int| 0 <= i < latest.len() implies again(#[trigger] latest[i]) is None by {
        let signal = latest[i];
        let newest = monitor.pipeline_samples.last();
        assert(signal.observed_at_unix_ms <= newest.observed_at_unix_ms) by {
            let skipped = monitor.pipeline_samples.len() - latest.len();
            assert(signal == monitor.pipeline_samples[i + skipped]);
            if i + skipped < monitor.pipeline_samples.len() - 1 {
                assert(monitor.pipeline_samples[i + skipped].observed_at_unix_ms
                    <= monitor.pipeline_samples[monitor.pipeline_samples.len()
                    - 1].observed_at_unix_ms);
            }
        }
        if monitor.fresh_at(signal.observed_at_unix_ms, first_at) && responsiveness(
            signal,
        ) is Some {
            assert(value(signal) == Some(signal.observed_at_unix_ms));
        }
    }
    lemma_nothing_smallest(latest, again);
}

/// Evidence counts exactly where it is not from the future, not older than two
/// intervals of sampling, and newer than what was used before.
pub proof fn law_fresh_evidence_counts(
    monitor: MonitorView,
    config: PerformanceMonitorConfig,
    sample_unix_ms: u64,
    observed_at_unix_ms: u64,
)
    requires
        monitor.config == Some(config),
    ensures
        monitor.fresh_at(sample_unix_ms, observed_at_unix_ms) <==> {
            &&& sample_unix_ms <= observed_at_unix_ms
            &&& observed_at_unix_ms <= sample_unix_ms + 2 * config.sample_interval.millis
            &&& monitor.last_control_sample_unix_ms is None || sample_unix_ms
                > monitor.last_control_sample_unix_ms->0
        },
{
}

/// The control is told of no better a responsiveness than any fresh one among
/// the latest 64 signals shows, and of one that such a signal shows; of nothing
/// where none of them shows one.
pub proof fn law_worst_fresh_signal_is_told(monitor: MonitorView, observed_at_unix_ms: u64, index: int)
    requires
        0 <= index < monitor.pipeline_samples.len(),
        index >= monitor.pipeline_samples.len() - 64,
        monitor.fresh_at(
            monitor.pipeline_samples[index].observed_at_unix_ms,
            observed_at_unix_ms,
        ),
        responsiveness(monitor.pipeline_samples[index]) is Some,
    ensures
        monitor.host_responsiveness(observed_at_unix_ms) matches Some(told) && told
            <= responsiveness(monitor.pipeline_samples[index])->0,
        monitor.evidence(observed_at_unix_ms) matches Some(observation)
            && observation.host_responsiveness_basis_points == monitor.host_responsiveness(
            observed_at_unix_ms,
        ),
{
    let latest = latest_signals(monitor.pipeline_samples);
    let value = monitor.fresh_responsiveness(observed_at_unix_ms);
    lemma_smallest(latest, value);
    let at = index - (monitor.pipeline_samples.len() - latest.len());
    assert(latest[at] == monitor.pipeline_samples[index]);
    assert(value(latest[at]) == responsiveness(monitor.pipeline_samples[index]));
}

/// A responsiveness that the control is told of is that of a fresh signal among
/// the latest 64.
pub proof fn law_told_responsiveness_was_signalled(monitor: MonitorView, observed_at_unix_ms: u64)
    requires
        monitor.host_responsiveness(observed_at_unix_ms) is Some,
    ensures
        exists|i: int| {
            &&& 0 <= i < monitor.pipeline_samples.len()
            &&& i >= monitor.pipeline_samples.len() - 64
            &&& monitor.fresh_at(
                (#[trigger] monitor.pipeline_samples[i]).observed_at_unix_ms,
                observed_at_unix_ms,
            )
            &&& responsiveness(monitor.pipeline_samples[i]) == monitor.host_responsiveness(
                observed_at_unix_ms,
            )
        },
{
    let latest = latest_signals(monitor.pipeline_samples);
    let value = monitor.fresh_responsiveness(observed_at_unix_ms);
    lemma_smallest(latest, value);
    let at = choose|i: int|
        0 <= i < latest.len() && value(#[trigger] latest[i]) == monitor.host_responsiveness(
            observed_at_unix_ms,
        );
    let index = at + (monitor.pipeline_samples.len() - latest.len());
    assert(latest[at] == monitor.pipeline_samples[index]);
    assert(value(latest[at]) is Some);
}

/// The control is told of other programs and of a full screen only by the
/// latest sample, where that is fresh; of the programs only where the sample
/// measured them.
pub proof fn law_latest_sample_is_told(monitor: MonitorView, observed_at_unix_ms: u64)
    requires
        monitor.system_samples.len() > 0,
    ensures
        ({
            let latest = monitor.system_samples.last();
            let fresh = monitor.fresh_at(latest.observed_at_unix_ms, observed_at_unix_ms);
            &&& monitor.outside_pressure(observed_at_unix_ms) is Some <==> fresh
                && latest.process_metrics_known()
            &&& monitor.outside_pressure(observed_at_unix_ms) matches Some(told) ==> told
                == third_party_pressure(latest) as u16
            &&& monitor.evidence(observed_at_unix_ms) matches Some(observation) ==> {
                &&& observation.third_party_pressure_basis_points == monitor.outside_pressure(
                    observed_at_unix_ms,
                )
                &&& observation.foreground_fullscreen <==> fresh && (latest.foreground
                    matches Some(foreground) && foreground.fullscreen)
            }
            &&& monitor.evidence(observed_at_unix_ms) is None ==> !(fresh
                && latest.process_metrics_known())
        }),
{
}

/// Nothing is observed at a time before the newest sample or the newest signal.
pub proof fn law_observations_do_not_go_back(monitor: MonitorView, observed_at_unix_ms: u64)
    ensures
        monitor.system_samples.len() > 0 && observed_at_unix_ms
            < monitor.system_samples.last().observed_at_unix_ms ==> monitor.from_the_future(
            observed_at_unix_ms,
        ),
        monitor.pipeline_samples.len() > 0 && observed_at_unix_ms
            < monitor.pipeline_samples.last().observed_at_unix_ms ==> monitor.from_the_future(
            observed_at_unix_ms,
        ),
        monitor.from_the_future(observed_at_unix_ms) ==> (monitor.system_samples.len() > 0
            && observed_at_unix_ms < monitor.system_samples.last().observed_at_unix_ms) || (
        monitor.pipeline_samples.len() > 0 && observed_at_unix_ms
            < monitor.pipeline_samples.last().observed_at_unix_ms),
{
}

} // verus!
