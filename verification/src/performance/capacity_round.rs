//! One round of looking at the room of the volumes: the sample is checked and
//! recorded, and only then counts and changes what is known.

use vstd::prelude::*;

use crate::error::{RuntimeHostError, RuntimeHostResult};
use crate::performance::capacity::{
    CapacityFactReference, CapacityProjection, CommittedCapacity, PerformanceCapacitySample,
};
use crate::performance::capacity_monitor::{
    capacity_error, failure, holds_pressure, holds_unknown, sample_severity, CapacityAction,
    CapacityEvent, CapacityMonitor,
};
use crate::performance::monitor::EventSeverity;

verus! {

/// What is known of the room of the volumes.
#[derive(Debug)]
pub struct CapacityWatch {
    pub monitor: CapacityMonitor,
    pub projection: CapacityProjection,
    /// The performance counters are watched too.
    pub performance: bool,
}

#[derive(Debug, Clone, Copy, PartialEq, Eq, Structural)]
pub enum RoundStep {
    /// Check that the sample is well formed.
    Validate,
    AppendSummary,
    AppendTransition(CapacityEvent),
    /// Refer to the summary among the performance events.
    AppendReference,
}

/// What a step gave.
#[derive(Debug, Clone, Copy)]
pub enum RoundReply {
    Valid(bool),
    /// An event was appended under this id and sequence.
    Recorded { event_id: u128, sequence: u64 },
    Failed(RuntimeHostError),
}

/// A round in progress.
#[derive(Debug)]
pub struct CapacityRound {
    pub step: RoundStep,
    /// The severity of the event that is to be appended.
    pub severity: EventSeverity,
    /// The sample, until it counts.
    pub sample: Option<PerformanceCapacitySample>,
}

#[derive(Debug)]
pub enum RoundProgress {
    Next(CapacityRound),
    End(RuntimeHostResult<()>),
}

/// The sample is in the round until it was recorded, and in the projection
/// afterwards.
pub open spec fn round_wf(watch: CapacityWatch, round: CapacityRound) -> bool {
    match round.step {
        RoundStep::Validate | RoundStep::AppendSummary => round.sample is Some,
        RoundStep::AppendTransition(_) => round.sample is None && watch.projection.committed
            is Some,
        RoundStep::AppendReference => round.sample is None,
    }
}

/// The reply answers the step.
pub open spec fn round_reply_fits(step: RoundStep, reply: RoundReply) -> bool {
    match step {
        RoundStep::Validate => reply is Valid,
        _ => reply is Recorded || reply is Failed,
    }
}

/// What follows a step of the monitor.
pub open spec fn after_transition(
    watch: CapacityWatch,
    wanted: Result<CapacityAction, RuntimeHostError>,
) -> RoundProgress {
    match wanted {
        Err(error) => RoundProgress::End(Err(error)),
        Ok(CapacityAction::Append { severity, event }) => RoundProgress::Next(
            CapacityRound { step: RoundStep::AppendTransition(event), severity, sample: None },
        ),
        Ok(CapacityAction::Done) => if watch.performance {
            RoundProgress::Next(
                CapacityRound {
                    step: RoundStep::AppendReference,
                    severity: EventSeverity::Info,
                    sample: None,
                },
            )
        } else {
            RoundProgress::End(Ok(()))
        },
    }
}

/// What is known, and the next step, after a reply.
pub open spec fn round_step(watch: CapacityWatch, round: CapacityRound, reply: RoundReply) -> (
    CapacityWatch,
    RoundProgress,
) {
    match (round.step, reply) {
        (RoundStep::Validate, RoundReply::Valid(false)) => (
            watch,
            RoundProgress::End(Err(capacity_error("invalid_capacity_sample"))),
        ),
        (RoundStep::Validate, _) => {
            let volumes = (round.sample->0).volumes@;
            (
                watch,
                RoundProgress::Next(
                    CapacityRound {
                        step: RoundStep::AppendSummary,
                        severity: if holds_unknown(volumes) || holds_pressure(volumes) {
                            EventSeverity::Warning
                        } else {
                            EventSeverity::Info
                        },
                        sample: round.sample,
                    },
                ),
            )
        },
        (RoundStep::AppendSummary, RoundReply::Recorded { event_id, sequence }) => {
            let sample = round.sample->0;
            let known = CapacityProjection {
                committed: Some(
                    CommittedCapacity {
                        sample,
                        reference: CapacityFactReference {
                            event_id,
                            sequence,
                            owner_epoch: sample.owner_epoch,
                            observed_at_unix_ms: sample.observed_at_unix_ms,
                            observed_at_monotonic_ms: sample.observed_at_monotonic_ms,
                        },
                    },
                ),
                ..watch.projection
            };
            let (monitor, wanted) = watch.monitor.first_step(
                sample.volumes@,
                sample.observed_at_unix_ms,
            );
            let after = CapacityWatch { monitor, projection: known, ..watch };
            (after, after_transition(after, wanted))
        },
        (RoundStep::AppendSummary, RoundReply::Failed(error)) => (
            CapacityWatch {
                projection: CapacityProjection { committed: None, ..watch.projection },
                ..watch
            },
            RoundProgress::End(Err(error)),
        ),
        (RoundStep::AppendTransition(event), _) => {
            let sample = (watch.projection.committed->0).sample;
            let recorded = match reply {
                RoundReply::Failed(error) => Err(error),
                _ => Ok(()),
            };
            let (monitor, wanted) = watch.monitor.next_step(
                event,
                recorded,
                sample.volumes@,
                sample.observed_at_unix_ms,
            );
            let after = CapacityWatch { monitor, ..watch };
            (after, after_transition(after, wanted))
        },
        (_, RoundReply::Failed(error)) => (watch, RoundProgress::End(Err(error))),
        _ => (watch, RoundProgress::End(Ok(()))),
    }
}

impl CapacityRound {
    /// Begins a round with what was sampled.
    pub fn new(sample: PerformanceCapacitySample) -> (round: Self)
        ensures
            round == (CapacityRound {
                step: RoundStep::Validate,
                severity: EventSeverity::Info,
                sample: Some(sample),
            }),
    {
        CapacityRound {
            step: RoundStep::Validate,
            severity: EventSeverity::Info,
            sample: Some(sample),
        }
    }

    fn wants(watch: &CapacityWatch, wanted: RuntimeHostResult<CapacityAction>) -> (progress:
        RoundProgress)
        ensures
            progress == after_transition(*watch, wanted),
    {
        match wanted {
            Err(error) => RoundProgress::End(Err(error)),
            Ok(CapacityAction::Append { severity, event }) => RoundProgress::Next(
                CapacityRound { step: RoundStep::AppendTransition(event), severity, sample: None },
            ),
            Ok(CapacityAction::Done) => {
                if watch.performance {
                    RoundProgress::Next(
                        CapacityRound {
                            step: RoundStep::AppendReference,
                            severity: EventSeverity::Info,
                            sample: None,
                        },
                    )
                } else {
                    RoundProgress::End(Ok(()))
                }
            },
        }
    }

    /// Takes the reply to the current step.
    pub fn advance(self, watch: &mut CapacityWatch, reply: RoundReply) -> (progress: RoundProgress)
        requires
            round_wf(*old(watch), self),
            round_reply_fits(self.step, reply),
        ensures
            (*final(watch), progress) == round_step(*old(watch), self, reply),
            progress matches RoundProgress::Next(next) ==> round_wf(*final(watch), next),
    {
        match (self.step, self.sample) {
            (RoundStep::Validate, Some(sample)) => {
                if let RoundReply::Valid(false) = reply {
                    return RoundProgress::End(Err(failure("invalid_capacity_sample")));
                }
                let severity = sample_severity(&sample);
                RoundProgress::Next(
                    CapacityRound {
                        step: RoundStep::AppendSummary,
                        severity,
                        sample: Some(sample),
                    },
                )
            },
            (RoundStep::AppendSummary, Some(sample)) => {
                let recorded: RuntimeHostResult<(u128, u64)> = match reply {
                    RoundReply::Failed(error) => Err(error),
                    RoundReply::Recorded { event_id, sequence } => Ok((event_id, sequence)),
                    RoundReply::Valid(_) => Ok((0, 0)),
                };
                let now: u64 = sample.observed_at_unix_ms;
                if let Err(error) = watch.projection.commit(sample, recorded) {
                    return RoundProgress::End(Err(error));
                }
                let wanted = match &watch.projection.committed {
                    Some(committed) => watch.monitor.record_transitions(&committed.sample, now),
                    None => Ok(CapacityAction::Done),
                };
                CapacityRound::wants(watch, wanted)
            },
            (RoundStep::AppendTransition(event), _) => {
                let recorded: RuntimeHostResult<()> = match reply {
                    RoundReply::Failed(error) => Err(error),
                    _ => Ok(()),
                };
                let wanted = match &watch.projection.committed {
                    Some(committed) => watch.monitor.event_recorded(
                        event,
                        recorded,
                        &committed.sample,
                        committed.sample.observed_at_unix_ms,
                    ),
                    None => Ok(CapacityAction::Done),
                };
                CapacityRound::wants(watch, wanted)
            },
            _ => match reply {
                RoundReply::Failed(error) => RoundProgress::End(Err(error)),
                _ => RoundProgress::End(Ok(())),
            },
        }
    }
}

/// What is known comes from a recorded sample: a sample counts only once its
/// summary was recorded, and where that fails no earlier sample counts either.
pub proof fn law_only_recorded_samples_count(
    watch: CapacityWatch,
    round: CapacityRound,
    reply: RoundReply,
)
    requires
        round_wf(watch, round),
        round_reply_fits(round.step, reply),
    ensures
        ({
            let after = round_step(watch, round, reply).0;
            match (round.step, reply) {
                (RoundStep::AppendSummary, RoundReply::Recorded { event_id, sequence }) =>
                after.projection.committed matches Some(committed) && Some(committed.sample)
                    == round.sample && committed.reference.event_id == event_id
                    && committed.reference.sequence == sequence,
                (RoundStep::AppendSummary, _) => after.projection.committed is None,
                _ => after.projection == watch.projection,
            }
        }),
{
}

/// A sample that is not valid ends the round and changes nothing; a valid one
/// is summarised, as a warning exactly when a volume is short of room or its
/// room is unknown.
pub proof fn law_valid_sample_is_summarised(watch: CapacityWatch, round: CapacityRound)
    requires
        round.step == RoundStep::Validate,
        round.sample is Some,
    ensures
        round_step(watch, round, RoundReply::Valid(false)).0 == watch,
        round_step(watch, round, RoundReply::Valid(false)).1 matches RoundProgress::End(Err(_)),
        round_step(watch, round, RoundReply::Valid(true)).0 == watch,
        round_step(watch, round, RoundReply::Valid(true)).1 matches RoundProgress::Next(next)
            && next.step == RoundStep::AppendSummary && next.sample == round.sample && (
        next.severity == EventSeverity::Warning <==> holds_unknown((round.sample->0).volumes@)
            || holds_pressure((round.sample->0).volumes@)) && (next.severity == EventSeverity::Info
            <==> !holds_unknown((round.sample->0).volumes@) && !holds_pressure(
            (round.sample->0).volumes@,
        )),
{
}

/// A summary that was recorded is what the projection shows, with its own
/// reference; one that was not leaves the projection with nothing.
pub proof fn law_recorded_summary_is_shown(
    watch: CapacityWatch,
    round: CapacityRound,
    event_id: u128,
    sequence: u64,
    error: RuntimeHostError,
)
    requires
        round.step == RoundStep::AppendSummary,
        round.sample is Some,
    ensures
        round_step(watch, round, RoundReply::Recorded { event_id, sequence }).0.projection.committed matches Some(
            shown,
        ) && shown.sample == round.sample->0 && shown.reference.event_id == event_id
            && shown.reference.sequence == sequence && shown.reference.owner_epoch == (
        round.sample->0).owner_epoch && shown.reference.observed_at_unix_ms == (
        round.sample->0).observed_at_unix_ms && shown.reference.observed_at_monotonic_ms == (
        round.sample->0).observed_at_monotonic_ms,
        round_step(watch, round, RoundReply::Failed(error)).0.projection.committed is None,
        round_step(watch, round, RoundReply::Failed(error)).0.monitor == watch.monitor,
        round_step(watch, round, RoundReply::Failed(error)).1 == RoundProgress::End(Err(error)),
{
}

/// A round with nothing more to record ends, after a reference for the
/// performance record where there is one.
pub proof fn law_reference_is_appended_last(watch: CapacityWatch)
    ensures
        watch.performance ==> (after_transition(watch, Ok(CapacityAction::Done)) matches RoundProgress::Next(
            next,
        ) && next.step == RoundStep::AppendReference && next.severity == EventSeverity::Info),
        !watch.performance ==> after_transition(watch, Ok(CapacityAction::Done))
            == RoundProgress::End(Ok(())),
{
}

} // verus!
