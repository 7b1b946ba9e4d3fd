//! The pipeline's part of the monitor: signals, and the ledger events that
//! they are drawn from.

use vstd::prelude::*;

use crate::error::{RuntimeHostError, RuntimeHostResult};
use crate::ordered_map::lemma_keys_are_domain;
use crate::performance::config::{performance_error, performance_fatal, PerformanceMonitorConfig};
use crate::performance::measure::{trim_queue, trimmed};
use crate::performance::monitor::{
    semantic_events, signals_ordered, MonitorView, PerformanceMonitor, PerformanceSemanticEvent,
    PerformanceStutterEventData, SemanticEventView, StutterView,
};
use crate::performance::signal::{
    begun, drop_instance, elapsed, elapsed_ms, insert_pending, latency, needed, observe_error,
    required_id, signal_error, take_latency, without_instance, PendingPipelineMeasurement,
    PipelineEventObservation, PipelineEventType, PipelinePerformanceSignal,
};

verus! {

/// The monitor after a step, and the step's events or error.
pub type MonitorStep = (MonitorView, Result<Seq<SemanticEventView>, RuntimeHostError>);

/// The event of a gap between frames that is long enough to be seen.
pub open spec fn stutter_events(
    signal: PipelinePerformanceSignal,
    stutter_frame_gap_ms: u64,
) -> Seq<SemanticEventView> {
    match signal.frame_gap_ms {
        Some(gap) => if gap >= stutter_frame_gap_ms {
            seq![
                SemanticEventView::StutterDetected(
                    StutterView {
                        instance_id: signal.instance_id@,
                        observed_at_unix_ms: signal.observed_at_unix_ms,
                        frame_gap_ms: gap,
                        capture_latency_ms: signal.capture_latency_ms,
                        recognition_latency_ms: signal.recognition_latency_ms,
                        action_effect_latency_ms: signal.action_effect_latency_ms,
                    },
                ),
            ]
        } else {
            Seq::empty()
        },
        None => Seq::empty(),
    }
}

/// An error of recording a signal.
pub open spec fn record_error(code: &'static str) -> RuntimeHostError {
    performance_error(code, "record_performance_pipeline_signal")
}

impl MonitorView {
    /// The step that a signal makes.
    pub open spec fn after_signal(self, signal: PipelinePerformanceSignal) -> MonitorStep {
        if !signal.valid() {
            (self, Err(signal_error()))
        } else {
            match self.config {
                None => (self, Err(record_error("performance_monitor_disabled"))),
                Some(config) => if self.pipeline_stopped {
                    (self, Err(record_error("performance_monitor_unavailable")))
                } else if self.pipeline_samples.len() > 0
                    && self.pipeline_samples.last().observed_at_unix_ms
                    > signal.observed_at_unix_ms {
                    (self, Err(record_error("performance_pipeline_time_invalid")))
                } else {
                    (
                        MonitorView {
                            pipeline_samples: trimmed(
                                self.pipeline_samples.push(signal),
                                config.max_pipeline_samples,
                                config.context_window.millis as u64,
                            ),
                            ..self
                        },
                        Ok(stutter_events(signal, config.thresholds.stutter_frame_gap_ms)),
                    )
                },
            }
        }
    }

    /// A completed capture gives the capture's latency and the gap since the
    /// instance's capture before it.
    pub open spec fn after_capture(
        self,
        observation: PipelineEventObservation,
        id: u128,
        maximum: usize,
    ) -> MonitorStep {
        let instance_id = observation.instance_id@;
        let at = observation.observed_at_unix_ms;
        let taken = MonitorView { capture_starts: self.capture_starts.remove(id), ..self };
        match latency(self.capture_starts, id, instance_id, None, at) {
            Err(error) => (taken, Err(error)),
            Ok(capture_latency) => {
                let noted = MonitorView {
                    last_capture_completed: self.last_capture_completed.insert(instance_id, at),
                    ..taken
                };
                let gap: Result<Option<u64>, RuntimeHostError> =
                    if self.last_capture_completed.contains_key(instance_id) {
                    match elapsed(self.last_capture_completed[instance_id], at) {
                        Ok(gap) => Ok(Some(gap)),
                        Err(error) => Err(error),
                    }
                } else {
                    Ok(None)
                };
                match gap {
                    Err(error) => (noted, Err(error)),
                    Ok(frame_gap_ms) => if noted.last_capture_completed.len() > maximum {
                        (noted, Err(observe_error("performance_instance_tracking_exhausted")))
                    } else {
                        noted.after_signal(
                            PipelinePerformanceSignal {
                                instance_id: observation.instance_id,
                                observed_at_unix_ms: at,
                                frame_gap_ms,
                                capture_latency_ms: Some(capture_latency),
                                recognition_latency_ms: None,
                                action_effect_latency_ms: None,
                            },
                        )
                    },
                }
            },
        }
    }

    /// A capture that failed still took its time.
    pub open spec fn after_failed_capture(
        self,
        observation: PipelineEventObservation,
        id: u128,
    ) -> MonitorStep {
        let at = observation.observed_at_unix_ms;
        let taken = MonitorView { capture_starts: self.capture_starts.remove(id), ..self };
        match latency(self.capture_starts, id, observation.instance_id@, None, at) {
            Err(error) => (taken, Err(error)),
            Ok(capture_latency) => taken.after_signal(
                PipelinePerformanceSignal {
                    instance_id: observation.instance_id,
                    observed_at_unix_ms: at,
                    frame_gap_ms: None,
                    capture_latency_ms: Some(capture_latency),
                    recognition_latency_ms: None,
                    action_effect_latency_ms: None,
                },
            ),
        }
    }

    /// A recognition that ended gives its latency.
    pub open spec fn after_recognition(
        self,
        observation: PipelineEventObservation,
        id: u128,
        frame_id: Option<u128>,
    ) -> MonitorStep {
        let at = observation.observed_at_unix_ms;
        let taken = MonitorView { recognition_starts: self.recognition_starts.remove(id), ..self };
        match latency(self.recognition_starts, id, observation.instance_id@, frame_id, at) {
            Err(error) => (taken, Err(error)),
            Ok(recognition_latency) => taken.after_signal(
                PipelinePerformanceSignal {
                    instance_id: observation.instance_id,
                    observed_at_unix_ms: at,
                    frame_gap_ms: None,
                    capture_latency_ms: None,
                    recognition_latency_ms: Some(recognition_latency),
                    action_effect_latency_ms: None,
                },
            ),
        }
    }

    /// An action whose effect is complete gives the action's latency.
    pub open spec fn after_effect(
        self,
        observation: PipelineEventObservation,
        id: u128,
    ) -> MonitorStep {
        let at = observation.observed_at_unix_ms;
        let taken = MonitorView { action_starts: self.action_starts.remove(id), ..self };
        match latency(self.action_starts, id, observation.instance_id@, None, at) {
            Err(error) => (taken, Err(error)),
            Ok(action_latency) => taken.after_signal(
                PipelinePerformanceSignal {
                    instance_id: observation.instance_id,
                    observed_at_unix_ms: at,
                    frame_gap_ms: None,
                    capture_latency_ms: None,
                    recognition_latency_ms: None,
                    action_effect_latency_ms: Some(action_latency),
                },
            ),
        }
    }

    /// The step that a valid event makes.
    pub open spec fn after_valid_event(
        self,
        observation: PipelineEventObservation,
        maximum: usize,
    ) -> MonitorStep {
        let frame = needed(observation.frame_id, "performance_pipeline_frame_missing");
        let recognition = needed(
            observation.recognition_id,
            "performance_pipeline_recognition_missing",
        );
        let action = needed(observation.action_id, "performance_pipeline_action_missing");
        let start = |frame_id: Option<u128>|
            PendingPipelineMeasurement {
                instance_id: observation.instance_id,
                started_at_unix_ms: observation.observed_at_unix_ms,
                frame_id,
            };
        match observation.event_type {
            PipelineEventType::CaptureRequested => match frame {
                Err(error) => (self, Err(error)),
                Ok(id) => match begun(self.capture_starts, id, start(Some(id)), maximum) {
                    Err(error) => (self, Err(error)),
                    Ok(capture_starts) => (
                        MonitorView { capture_starts, ..self },
                        Ok(Seq::empty()),
                    ),
                },
            },
            PipelineEventType::CaptureCompleted => match frame {
                Err(error) => (self, Err(error)),
                Ok(id) => self.after_capture(observation, id, maximum),
            },
            PipelineEventType::CaptureFailed => match frame {
                Err(error) => (self, Err(error)),
                Ok(id) => self.after_failed_capture(observation, id),
            },
            PipelineEventType::RecognitionRequested => match (recognition, frame) {
                (Err(error), _) => (self, Err(error)),
                (Ok(_), Err(error)) => (self, Err(error)),
                (Ok(id), Ok(frame_id)) => match begun(
                    self.recognition_starts,
                    id,
                    start(Some(frame_id)),
                    maximum,
                ) {
                    Err(error) => (self, Err(error)),
                    Ok(recognition_starts) => (
                        MonitorView { recognition_starts, ..self },
                        Ok(Seq::empty()),
                    ),
                },
            },
            PipelineEventType::RecognitionCompleted => match (recognition, frame) {
                (Err(error), _) => (self, Err(error)),
                (Ok(_), Err(error)) => (self, Err(error)),
                (Ok(id), Ok(frame_id)) => self.after_recognition(observation, id, Some(frame_id)),
            },
            PipelineEventType::RecognitionFailed => match recognition {
                Err(error) => (self, Err(error)),
                Ok(id) => self.after_recognition(observation, id, None),
            },
            PipelineEventType::TaskEffectIntent => match action {
                Err(error) => (self, Err(error)),
                Ok(id) => match begun(
                    self.action_starts,
                    id,
                    start(observation.frame_id),
                    maximum,
                ) {
                    Err(error) => (self, Err(error)),
                    Ok(action_starts) => (MonitorView { action_starts, ..self }, Ok(Seq::empty())),
                },
            },
            PipelineEventType::TaskEffectCompleted => match action {
                Err(error) => (self, Err(error)),
                Ok(id) => self.after_effect(observation, id),
            },
            PipelineEventType::TaskStepFinished => (
                match observation.action_id {
                    Some(id) => MonitorView {
                        action_starts: self.action_starts.remove(id),
                        ..self
                    },
                    None => self,
                },
                Ok(Seq::empty()),
            ),
            PipelineEventType::Other => (self, Ok(Seq::empty())),
            _ => (
                MonitorView {
                    capture_starts: without_instance(
                        self.capture_starts,
                        observation.instance_id@,
                    ),
                    recognition_starts: without_instance(
                        self.recognition_starts,
                        observation.instance_id@,
                    ),
                    action_starts: without_instance(self.action_starts, observation.instance_id@),
                    ..self
                },
                Ok(Seq::empty()),
            ),
        }
    }

    /// The step that an event of the ledger makes.
    pub open spec fn after_event(self, observation: PipelineEventObservation) -> MonitorStep {
        match self.config {
            None => (self, Ok(Seq::empty())),
            Some(config) => if self.pipeline_stopped {
                (self, Ok(Seq::empty()))
            } else if !observation.valid() {
                (self, Err(observe_error("performance_pipeline_observation_invalid")))
            } else {
                self.after_valid_event(observation, config.max_pipeline_samples)
            },
        }
    }
}

/// The result is that of a step.
pub open spec fn is_step_result(
    result: RuntimeHostResult<Vec<PerformanceSemanticEvent>>,
    step: Result<Seq<SemanticEventView>, RuntimeHostError>,
) -> bool {
    match step {
        Ok(events) => result matches Ok(actual) && semantic_events(actual@) == events,
        Err(error) => result matches Err(actual) && actual == error,
    }
}

fn no_events() -> (events: Vec<PerformanceSemanticEvent>)
    ensures
        semantic_events(events@) == Seq::<SemanticEventView>::empty(),
{
    let events: Vec<PerformanceSemanticEvent> = Vec::new();
    assert(semantic_events(events@) =~= Seq::<SemanticEventView>::empty());
    events
}

impl PerformanceMonitor {
    /// Takes a signal of the pipeline. A signal that is refused leaves the
    /// buffer as it is.
    pub fn record_pipeline_signal(&mut self, signal: PipelinePerformanceSignal) -> (result:
        RuntimeHostResult<Vec<PerformanceSemanticEvent>>)
        requires
            old(self).wf(),
        ensures
            final(self).wf(),
            final(self)@ == old(self)@.after_signal(signal).0,
            is_step_result(result, old(self)@.after_signal(signal).1),
    {
        signal.validate()?;
        let (maximum, window_ms, stutter_gap) = match &self.config {
            Some(config) => (
                config.max_pipeline_samples,
                config.context_window.millis as u64,
                config.thresholds.stutter_frame_gap_ms,
            ),
            None => {
                return Err(
                    performance_fatal(
                        "performance_monitor_disabled",
                        "record_performance_pipeline_signal",
                    ),
                );
            },
        };
        if self.pipeline_stopped {
            return Err(
                performance_fatal(
                    "performance_monitor_unavailable",
                    "record_performance_pipeline_signal",
                ),
            );
        }
        let count: usize = self.pipeline_samples.len();
        if count > 0 && self.pipeline_samples[count - 1].observed_at_unix_ms
            > signal.observed_at_unix_ms {
            return Err(
                performance_fatal(
                    "performance_pipeline_time_invalid",
                    "record_performance_pipeline_signal",
                ),
            );
        }
        let mut events = no_events();
        if let Some(frame_gap_ms) = signal.frame_gap_ms {
            if frame_gap_ms >= stutter_gap {
                events.push(
                    PerformanceSemanticEvent::StutterDetected(
                        PerformanceStutterEventData {
                            instance_id: signal.instance_id.clone(),
                            observed_at_unix_ms: signal.observed_at_unix_ms,
                            frame_gap_ms,
                            capture_latency_ms: signal.capture_latency_ms,
                            recognition_latency_ms: signal.recognition_latency_ms,
                            action_effect_latency_ms: signal.action_effect_latency_ms,
                        },
                    ),
                );
            }
        }
        assert(semantic_events(events@) =~= stutter_events(signal, stutter_gap));
        let ghost before = self.pipeline_samples@;
        self.pipeline_samples.push_back(signal);
        let ghost pushed = self.pipeline_samples@;
        assert(pushed =~= before.push(signal));
        trim_queue(&mut self.pipeline_samples, maximum, window_ms);
        proof {
            let kept = self.pipeline_samples@;
            let dropped = pushed.len() - kept.len();
            assert(signals_ordered(pushed)) by {
                assert forall|i: int, j: int| 0 <= i < j < pushed.len() implies (
                #[trigger] pushed[i]).observed_at_unix_ms <= (
                #[trigger] pushed[j]).observed_at_unix_ms by {
                    if j < before.len() {
                        assert(pushed[i] == before[i] && pushed[j] == before[j]);
                    } else {
                        assert(pushed[i] == before[i]);
                        if i < before.len() - 1 {
                            assert(before[i].observed_at_unix_ms <= before[before.len()
                                - 1].observed_at_unix_ms);
                        }
                    }
                }
            }
            assert forall|i: int, j: int| 0 <= i < j < kept.len() implies (
            #[trigger] kept[i]).observed_at_unix_ms <= (#[trigger] kept[j]).observed_at_unix_ms by {
                assert(kept[i] == pushed[i + dropped]);
                assert(kept[j] == pushed[j + dropped]);
            }
        }
        Ok(events)
    }

    /// Takes an event of the ledger: the beginnings of captures, recognitions
    /// and actions are tracked, their ends give signals.
    #[verifier::rlimit(60)]
    pub fn observe_pipeline_event(&mut self, observation: PipelineEventObservation) -> (result:
        RuntimeHostResult<Vec<PerformanceSemanticEvent>>)
        requires
            old(self).wf(),
        ensures
            final(self).wf(),
            final(self)@ == old(self)@.after_event(observation).0,
            is_step_result(result, old(self)@.after_event(observation).1),
    {
        let maximum: usize = match &self.config {
            Some(config) => config.max_pipeline_samples,
            None => {
                return Ok(no_events());
            },
        };
        if self.pipeline_stopped {
            return Ok(no_events());
        }
        observation.validate()?;
        proof {
            lemma_keys_are_domain(self.capture_starts);
            lemma_keys_are_domain(self.recognition_starts);
            lemma_keys_are_domain(self.action_starts);
        }
        match observation.event_type {
            PipelineEventType::CaptureRequested => {
                let id = required_id(
                    observation.frame_id,
                    "performance_pipeline_frame_missing",
                )?;
                insert_pending(
                    &mut self.capture_starts,
                    id,
                    PendingPipelineMeasurement {
                        instance_id: observation.instance_id,
                        started_at_unix_ms: observation.observed_at_unix_ms,
                        frame_id: Some(id),
                    },
                    maximum,
                )?;
                Ok(no_events())
            },
            PipelineEventType::CaptureCompleted => {
                let id = required_id(
                    observation.frame_id,
                    "performance_pipeline_frame_missing",
                )?;
                self.finish_capture(observation, id, maximum)
            },
            PipelineEventType::CaptureFailed => {
                let id = required_id(
                    observation.frame_id,
                    "performance_pipeline_frame_missing",
                )?;
                let capture_latency_ms = take_latency(
                    &mut self.capture_starts,
                    id,
                    observation.instance_id.as_str(),
                    None,
                    observation.observed_at_unix_ms,
                )?;
                self.record_pipeline_signal(
                    PipelinePerformanceSignal {
                        instance_id: observation.instance_id,
                        observed_at_unix_ms: observation.observed_at_unix_ms,
                        frame_gap_ms: None,
                        capture_latency_ms: Some(capture_latency_ms),
                        recognition_latency_ms: None,
                        action_effect_latency_ms: None,
                    },
                )
            },
            PipelineEventType::RecognitionRequested => {
                let id = required_id(
                    observation.recognition_id,
                    "performance_pipeline_recognition_missing",
                )?;
                let frame_id = required_id(
                    observation.frame_id,
                    "performance_pipeline_frame_missing",
                )?;
                insert_pending(
                    &mut self.recognition_starts,
                    id,
                    PendingPipelineMeasurement {
                        instance_id: observation.instance_id,
                        started_at_unix_ms: observation.observed_at_unix_ms,
                        frame_id: Some(frame_id),
                    },
                    maximum,
                )?;
                Ok(no_events())
            },
            PipelineEventType::RecognitionCompleted => {
                let id = required_id(
                    observation.recognition_id,
                    "performance_pipeline_recognition_missing",
                )?;
                let frame_id = required_id(
                    observation.frame_id,
                    "performance_pipeline_frame_missing",
                )?;
                self.finish_recognition(observation, id, Some(frame_id))
            },
            PipelineEventType::RecognitionFailed => {
                let id = required_id(
                    observation.recognition_id,
                    "performance_pipeline_recognition_missing",
                )?;
                self.finish_recognition(observation, id, None)
            },
            PipelineEventType::TaskEffectIntent => {
                let id = required_id(
                    observation.action_id,
                    "performance_pipeline_action_missing",
                )?;
                insert_pending(
                    &mut self.action_starts,
                    id,
                    PendingPipelineMeasurement {
                        instance_id: observation.instance_id,
                        started_at_unix_ms: observation.observed_at_unix_ms,
                        frame_id: observation.frame_id,
                    },
                    maximum,
                )?;
                Ok(no_events())
            },
            PipelineEventType::TaskEffectCompleted => {
                let id = required_id(
                    observation.action_id,
                    "performance_pipeline_action_missing",
                )?;
                let action_effect_latency_ms = take_latency(
                    &mut self.action_starts,
                    id,
                    observation.instance_id.as_str(),
                    None,
                    observation.observed_at_unix_ms,
                )?;
                self.record_pipeline_signal(
                    PipelinePerformanceSignal {
                        instance_id: observation.instance_id,
                        observed_at_unix_ms: observation.observed_at_unix_ms,
                        frame_gap_ms: None,
                        capture_latency_ms: None,
                        recognition_latency_ms: None,
                        action_effect_latency_ms: Some(action_effect_latency_ms),
                    },
                )
            },
            PipelineEventType::TaskStepFinished => {
                if let Some(id) = observation.action_id {
                    self.action_starts.remove(&id);
                }
                Ok(no_events())
            },
            PipelineEventType::Other => Ok(no_events()),
            _ => {
                let instance_id = observation.instance_id.as_str();
                drop_instance(&mut self.capture_starts, instance_id);
                drop_instance(&mut self.recognition_starts, instance_id);
                drop_instance(&mut self.action_starts, instance_id);
                Ok(no_events())
            },
        }
    }

    fn finish_capture(
        &mut self,
        observation: PipelineEventObservation,
        id: u128,
        maximum: usize,
    ) -> (result: RuntimeHostResult<Vec<PerformanceSemanticEvent>>)
        requires
            old(self).wf(),
        ensures
            final(self).wf(),
            final(self)@ == old(self)@.after_capture(observation, id, maximum).0,
            is_step_result(result, old(self)@.after_capture(observation, id, maximum).1),
    {
        proof {
            lemma_keys_are_domain(self.capture_starts);
        }
        let at: u64 = observation.observed_at_unix_ms;
        let capture_latency_ms = take_latency(
            &mut self.capture_starts,
            id,
            observation.instance_id.as_str(),
            None,
            at,
        )?;
        let previous: Option<u64> = match self.last_capture_completed.get(
            &observation.instance_id,
        ) {
            Some(previous) => Some(*previous),
            None => None,
        };
        self.last_capture_completed.insert(observation.instance_id.clone(), at);
        let frame_gap_ms: Option<u64> = match previous {
            Some(previous) => Some(elapsed_ms(previous, at)?),
            None => None,
        };
        proof {
            lemma_keys_are_domain(self.last_capture_completed);
        }
        if self.last_capture_completed.len() > maximum {
            return Err(
                performance_fatal(
                    "performance_instance_tracking_exhausted",
                    "observe_performance_pipeline_event",
                ),
            );
        }
        self.record_pipeline_signal(
            PipelinePerformanceSignal {
                instance_id: observation.instance_id,
                observed_at_unix_ms: at,
                frame_gap_ms,
                capture_latency_ms: Some(capture_latency_ms),
                recognition_latency_ms: None,
                action_effect_latency_ms: None,
            },
        )
    }

    fn finish_recognition(
        &mut self,
        observation: PipelineEventObservation,
        id: u128,
        frame_id: Option<u128>,
    ) -> (result: RuntimeHostResult<Vec<PerformanceSemanticEvent>>)
        requires
            old(self).wf(),
        ensures
            final(self).wf(),
            final(self)@ == old(self)@.after_recognition(observation, id, frame_id).0,
            is_step_result(result, old(self)@.after_recognition(observation, id, frame_id).1),
    {
        proof {
            lemma_keys_are_domain(self.recognition_starts);
        }
        let recognition_latency_ms = take_latency(
            &mut self.recognition_starts,
            id,
            observation.instance_id.as_str(),
            frame_id,
            observation.observed_at_unix_ms,
        )?;
        self.record_pipeline_signal(
            PipelinePerformanceSignal {
                instance_id: observation.instance_id,
                observed_at_unix_ms: observation.observed_at_unix_ms,
                frame_gap_ms: None,
                capture_latency_ms: None,
                recognition_latency_ms: Some(recognition_latency_ms),
                action_effect_latency_ms: None,
            },
        )
    }
}

/// A recognition that begins and ends on one frame gives a signal with the
/// time between.
pub proof fn law_recognition_latency_is_measured(
    monitor: MonitorView,
    config: PerformanceMonitorConfig,
    requested: PipelineEventObservation,
    completed: PipelineEventObservation,
    id: u128,
    frame_id: u128,
)
    requires
        monitor.config == Some(config),
        !monitor.pipeline_stopped,
        requested.valid(),
        completed.valid(),
        requested.event_type == PipelineEventType::RecognitionRequested,
        completed.event_type == PipelineEventType::RecognitionCompleted,
        requested.recognition_id == Some(id),
        completed.recognition_id == Some(id),
        requested.frame_id == Some(frame_id),
        completed.frame_id == Some(frame_id),
        requested.instance_id@ == completed.instance_id@,
        requested.observed_at_unix_ms <= completed.observed_at_unix_ms,
        monitor.after_event(requested).1 is Ok,
    ensures
        ({
            let begun = monitor.after_event(requested).0;
            let took = completed.observed_at_unix_ms - requested.observed_at_unix_ms;
            begun.after_event(completed) == (MonitorView {
                recognition_starts: begun.recognition_starts.remove(id),
                ..begun
            }).after_signal(
                PipelinePerformanceSignal {
                    instance_id: completed.instance_id,
                    observed_at_unix_ms: completed.observed_at_unix_ms,
                    frame_gap_ms: None,
                    capture_latency_ms: None,
                    recognition_latency_ms: Some(took as u64),
                    action_effect_latency_ms: None,
                },
            )
        }),
{
}

/// A gap between frames is told exactly where it is as long as the threshold or
/// longer, with the gap that was seen.
pub proof fn law_long_gaps_are_told(signal: PipelinePerformanceSignal, stutter_frame_gap_ms: u64)
    ensures
        stutter_events(signal, stutter_frame_gap_ms).len() == if signal.frame_gap_ms is Some
            && signal.frame_gap_ms->0 >= stutter_frame_gap_ms {
            1int
        } else {
            0
        },
        stutter_events(signal, stutter_frame_gap_ms).len() == 1 ==> (stutter_events(
            signal,
            stutter_frame_gap_ms,
        )[0] matches SemanticEventView::StutterDetected(data) && Some(data.frame_gap_ms)
            == signal.frame_gap_ms && data.instance_id == signal.instance_id@
            && data.observed_at_unix_ms == signal.observed_at_unix_ms && data.capture_latency_ms
            == signal.capture_latency_ms && data.recognition_latency_ms
            == signal.recognition_latency_ms && data.action_effect_latency_ms
            == signal.action_effect_latency_ms),
{
}

/// A signal is taken exactly where it is valid, the monitor is on and its
/// pipeline goes on, and it is not older than the last one. A signal that is
/// not taken changes nothing; one that is changes only the signals.
pub proof fn law_signals_are_taken_in_order(monitor: MonitorView, signal: PipelinePerformanceSignal)
    ensures
        ({
            let (after, step) = monitor.after_signal(signal);
            &&& step is Ok <==> {
                &&& signal.valid()
                &&& monitor.config is Some
                &&& !monitor.pipeline_stopped
                &&& monitor.pipeline_samples.len() == 0
                    || monitor.pipeline_samples.last().observed_at_unix_ms
                    <= signal.observed_at_unix_ms
            }
            &&& step is Err ==> after == monitor
            &&& after.system_samples == monitor.system_samples && after.active_pressures
                == monitor.active_pressures && after.health == monitor.health
            &&& step matches Ok(events) ==> events == stutter_events(
                signal,
                monitor.config->0.thresholds.stutter_frame_gap_ms,
            )
        }),
{
}

/// A capture that was requested and completed gives a signal with the time in
/// between as its latency, and with the time since the instance's last
/// completed capture as the gap between frames.
pub proof fn law_capture_latency_and_gap_are_measured(
    monitor: MonitorView,
    config: PerformanceMonitorConfig,
    requested: PipelineEventObservation,
    completed: PipelineEventObservation,
    id: u128,
)
    requires
        monitor.config == Some(config),
        !monitor.pipeline_stopped,
        requested.valid(),
        completed.valid(),
        requested.event_type == PipelineEventType::CaptureRequested,
        completed.event_type == PipelineEventType::CaptureCompleted,
        requested.frame_id == Some(id),
        completed.frame_id == Some(id),
        requested.instance_id@ == completed.instance_id@,
        requested.observed_at_unix_ms <= completed.observed_at_unix_ms,
        monitor.after_event(requested).1 is Ok,
        monitor.last_capture_completed.contains_key(completed.instance_id@)
            ==> monitor.last_capture_completed[completed.instance_id@]
            <= completed.observed_at_unix_ms,
        monitor.last_capture_completed.insert(
            completed.instance_id@,
            completed.observed_at_unix_ms,
        ).len() <= config.max_pipeline_samples,
    ensures
        ({
            let begun = monitor.after_event(requested).0;
            let took = completed.observed_at_unix_ms - requested.observed_at_unix_ms;
            let name = completed.instance_id@;
            begun.after_event(completed) == (MonitorView {
                capture_starts: begun.capture_starts.remove(id),
                last_capture_completed: monitor.last_capture_completed.insert(
                    name,
                    completed.observed_at_unix_ms,
                ),
                ..begun
            }).after_signal(
                PipelinePerformanceSignal {
                    instance_id: completed.instance_id,
                    observed_at_unix_ms: completed.observed_at_unix_ms,
                    frame_gap_ms: if monitor.last_capture_completed.contains_key(name) {
                        Some(
                            (completed.observed_at_unix_ms - monitor.last_capture_completed[name])
                                as u64,
                        )
                    } else {
                        None
                    },
                    capture_latency_ms: Some(took as u64),
                    recognition_latency_ms: None,
                    action_effect_latency_ms: None,
                },
            )
        }),
{
}

/// An action whose intent and effect were seen gives a signal with the time in
/// between as its latency.
pub proof fn law_effect_latency_is_measured(
    monitor: MonitorView,
    config: PerformanceMonitorConfig,
    intent: PipelineEventObservation,
    completed: PipelineEventObservation,
    id: u128,
)
    requires
        monitor.config == Some(config),
        !monitor.pipeline_stopped,
        intent.valid(),
        completed.valid(),
        intent.event_type == PipelineEventType::TaskEffectIntent,
        completed.event_type == PipelineEventType::TaskEffectCompleted,
        intent.action_id == Some(id),
        completed.action_id == Some(id),
        intent.instance_id@ == completed.instance_id@,
        intent.observed_at_unix_ms <= completed.observed_at_unix_ms,
        monitor.after_event(intent).1 is Ok,
    ensures
        ({
            let begun = monitor.after_event(intent).0;
            let took = completed.observed_at_unix_ms - intent.observed_at_unix_ms;
            begun.after_event(completed) == (MonitorView {
                action_starts: begun.action_starts.remove(id),
                ..begun
            }).after_signal(
                PipelinePerformanceSignal {
                    instance_id: completed.instance_id,
                    observed_at_unix_ms: completed.observed_at_unix_ms,
                    frame_gap_ms: None,
                    capture_latency_ms: None,
                    recognition_latency_ms: None,
                    action_effect_latency_ms: Some(took as u64),
                },
            )
        }),
{
}

/// A failed capture gives its latency too, but no gap, and does not count as a
/// completed one.
pub proof fn law_failed_capture_leaves_no_gap(
    monitor: MonitorView,
    config: PerformanceMonitorConfig,
    requested: PipelineEventObservation,
    failed: PipelineEventObservation,
    id: u128,
)
    requires
        monitor.config == Some(config),
        !monitor.pipeline_stopped,
        requested.valid(),
        failed.valid(),
        requested.event_type == PipelineEventType::CaptureRequested,
        failed.event_type == PipelineEventType::CaptureFailed,
        requested.frame_id == Some(id),
        failed.frame_id == Some(id),
        requested.instance_id@ == failed.instance_id@,
        requested.observed_at_unix_ms <= failed.observed_at_unix_ms,
        monitor.after_event(requested).1 is Ok,
    ensures
        ({
            let begun = monitor.after_event(requested).0;
            let took = failed.observed_at_unix_ms - requested.observed_at_unix_ms;
            begun.after_event(failed) == (MonitorView {
                capture_starts: begun.capture_starts.remove(id),
                ..begun
            }).after_signal(
                PipelinePerformanceSignal {
                    instance_id: failed.instance_id,
                    observed_at_unix_ms: failed.observed_at_unix_ms,
                    frame_gap_ms: None,
                    capture_latency_ms: Some(took as u64),
                    recognition_latency_ms: None,
                    action_effect_latency_ms: None,
                },
            )
        }),
{
}

/// A monitor that is off, or whose pipeline has stopped, takes no event and
/// refuses none.
pub proof fn law_stopped_pipeline_ignores_events(
    monitor: MonitorView,
    observation: PipelineEventObservation,
)
    requires
        monitor.config is None || monitor.pipeline_stopped,
    ensures
        monitor.after_event(observation).0 == monitor,
        monitor.after_event(observation).1 matches Ok(events) && events.len() == 0,
{
}

} // verus!
