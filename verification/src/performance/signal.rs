//! Signals of the capture and recognition pipeline, and the measurements in
//! progress that they come from.

use vstd::prelude::*;

use crate::error::{RuntimeHostError, RuntimeHostResult};
use crate::ordered_map::{lemma_keys_are_domain, OrderedMap};
use crate::performance::config::{performance_error, performance_fatal};
use crate::performance::measure::{
    latency_score, law_score_is_the_share_of_the_target, score, smaller, smaller_of, Timestamped,
};
use crate::text::{has_control, holds_control, same_text, utf8};

verus! {

/// One observation of the pipeline of an instance.
#[derive(Debug, Clone)]
pub struct PipelinePerformanceSignal {
    pub instance_id: String,
    pub observed_at_unix_ms: u64,
    pub frame_gap_ms: Option<u64>,
    pub capture_latency_ms: Option<u64>,
    pub recognition_latency_ms: Option<u64>,
    pub action_effect_latency_ms: Option<u64>,
}

impl Timestamped for PipelinePerformanceSignal {
    open spec fn at(&self) -> u64 {
        self.observed_at_unix_ms
    }

    fn timestamp(&self) -> (at: u64) {
        self.observed_at_unix_ms
    }
}

/// The name of an instance in the pipeline.
pub open spec fn instance_name_valid(instance_id: Seq<char>) -> bool {
    instance_id.len() > 0 && utf8(instance_id).len() <= 128 && !holds_control(instance_id)
}

pub fn valid_instance_name(instance_id: &str) -> (valid: bool)
    ensures
        valid == instance_name_valid(instance_id@),
{
    !instance_id.is_empty() && instance_id.as_bytes().len() <= 128 && !has_control(instance_id)
}

/// The refusal of a signal.
pub open spec fn signal_error() -> RuntimeHostError {
    performance_error("performance_pipeline_signal_invalid", "record_performance_pipeline_signal")
}

impl PipelinePerformanceSignal {
    /// A named instance, a time, a gap that is no zero, and something measured.
    pub open spec fn valid(&self) -> bool {
        &&& instance_name_valid(self.instance_id@)
        &&& self.observed_at_unix_ms > 0
        &&& self.frame_gap_ms != Some(0u64)
        &&& self.frame_gap_ms is Some || self.capture_latency_ms is Some
            || self.recognition_latency_ms is Some || self.action_effect_latency_ms is Some
    }

    pub fn new(instance_id: String, observed_at_unix_ms: u64, frame_gap_ms: u64) -> (result:
        RuntimeHostResult<Self>)
        ensures
            ({
                let signal = PipelinePerformanceSignal {
                    instance_id,
                    observed_at_unix_ms,
                    frame_gap_ms: Some(frame_gap_ms),
                    capture_latency_ms: None,
                    recognition_latency_ms: None,
                    action_effect_latency_ms: None,
                };
                &&& signal.valid() ==> result == Ok::<_, RuntimeHostError>(signal)
                &&& !signal.valid() ==> result == Err::<Self, _>(signal_error())
            }),
    {
        let signal = PipelinePerformanceSignal {
            instance_id,
            observed_at_unix_ms,
            frame_gap_ms: Some(frame_gap_ms),
            capture_latency_ms: None,
            recognition_latency_ms: None,
            action_effect_latency_ms: None,
        };
        signal.validate()?;
        Ok(signal)
    }

    pub fn with_capture_latency(self, latency_ms: u64) -> (result: RuntimeHostResult<Self>)
        ensures
            ({
                let signal = PipelinePerformanceSignal {
                    capture_latency_ms: Some(latency_ms),
                    ..self
                };
                &&& signal.valid() ==> result == Ok::<_, RuntimeHostError>(signal)
                &&& !signal.valid() ==> result == Err::<Self, _>(signal_error())
            }),
    {
        let mut signal = self;
        signal.capture_latency_ms = Some(latency_ms);
        signal.validate()?;
        Ok(signal)
    }

    pub fn with_recognition_latency(self, latency_ms: u64) -> (result: RuntimeHostResult<Self>)
        ensures
            ({
                let signal = PipelinePerformanceSignal {
                    recognition_latency_ms: Some(latency_ms),
                    ..self
                };
                &&& signal.valid() ==> result == Ok::<_, RuntimeHostError>(signal)
                &&& !signal.valid() ==> result == Err::<Self, _>(signal_error())
            }),
    {
        let mut signal = self;
        signal.recognition_latency_ms = Some(latency_ms);
        signal.validate()?;
        Ok(signal)
    }

    pub fn with_action_effect_latency(self, latency_ms: u64) -> (result: RuntimeHostResult<Self>)
        ensures
            ({
                let signal = PipelinePerformanceSignal {
                    action_effect_latency_ms: Some(latency_ms),
                    ..self
                };
                &&& signal.valid() ==> result == Ok::<_, RuntimeHostError>(signal)
                &&& !signal.valid() ==> result == Err::<Self, _>(signal_error())
            }),
    {
        let mut signal = self;
        signal.action_effect_latency_ms = Some(latency_ms);
        signal.validate()?;
        Ok(signal)
    }

    pub fn validate(&self) -> (result: RuntimeHostResult<()>)
        ensures
            self.valid() ==> result is Ok,
            !self.valid() ==> result == Err::<(), _>(signal_error()),
    {
        let no_gap = match self.frame_gap_ms {
            Some(gap) => gap == 0,
            None => false,
        };
        if !valid_instance_name(self.instance_id.as_str()) || self.observed_at_unix_ms == 0
            || no_gap || (self.frame_gap_ms.is_none() && self.capture_latency_ms.is_none()
            && self.recognition_latency_ms.is_none() && self.action_effect_latency_ms.is_none()) {
            return Err(
                performance_fatal(
                    "performance_pipeline_signal_invalid",
                    "record_performance_pipeline_signal",
                ),
            );
        }
        Ok(())
    }
}

/// The score of a latency that was measured.
pub open spec fn score_of(latency_ms: Option<u64>, target_ms: u64) -> Option<u16> {
    match latency_ms {
        Some(value) => Some(score(value, target_ms) as u16),
        None => None,
    }
}

fn score_latency(latency_ms: Option<u64>, target_ms: u64) -> (result: Option<u16>)
    ensures
        result == score_of(latency_ms, target_ms),
        result matches Some(value) ==> value <= 10_000,
{
    match latency_ms {
        Some(value) => Some(latency_score(value, target_ms)),
        None => None,
    }
}

/// How responsive a signal shows the host to be: its worst score.
pub open spec fn responsiveness(signal: PipelinePerformanceSignal) -> Option<u16> {
    smaller_of(
        smaller_of(
            smaller_of(
                score_of(signal.frame_gap_ms, 1_000),
                score_of(signal.capture_latency_ms, 500),
            ),
            score_of(signal.recognition_latency_ms, 1_000),
        ),
        score_of(signal.action_effect_latency_ms, 1_500),
    )
}

pub fn pipeline_responsiveness_basis_points(signal: &PipelinePerformanceSignal) -> (result: Option<
    u16,
>)
    ensures
        result == responsiveness(*signal),
        result matches Some(value) ==> value <= 10_000,
{
    smaller(
        smaller(
            smaller(
                score_latency(signal.frame_gap_ms, 1_000),
                score_latency(signal.capture_latency_ms, 500),
            ),
            score_latency(signal.recognition_latency_ms, 1_000),
        ),
        score_latency(signal.action_effect_latency_ms, 1_500),
    )
}

/// The ledger events that the pipeline is measured by.
#[derive(Debug, Clone, Copy, PartialEq, Eq, Structural)]
pub enum PipelineEventType {
    CaptureRequested,
    CaptureCompleted,
    CaptureFailed,
    RecognitionRequested,
    RecognitionCompleted,
    RecognitionFailed,
    TaskEffectIntent,
    TaskEffectCompleted,
    TaskStepFinished,
    TaskCompleted,
    TaskFailed,
    TaskCancelled,
    Other,
}

/// A ledger event, as far as the pipeline is concerned.
#[derive(Debug, Clone)]
pub struct PipelineEventObservation {
    pub event_type: PipelineEventType,
    pub instance_id: String,
    pub observed_at_unix_ms: u64,
    pub frame_id: Option<u128>,
    pub recognition_id: Option<u128>,
    pub action_id: Option<u128>,
}

/// A fatal error of observing the pipeline.
pub open spec fn observe_error(code: &'static str) -> RuntimeHostError {
    performance_error(code, "observe_performance_pipeline_event")
}

fn observe_fatal(code: &'static str) -> (error: RuntimeHostError)
    ensures
        error == observe_error(code),
{
    performance_fatal(code, "observe_performance_pipeline_event")
}

impl PipelineEventObservation {
    pub open spec fn valid(&self) -> bool {
        instance_name_valid(self.instance_id@) && self.observed_at_unix_ms > 0
    }

    pub fn validate(&self) -> (result: RuntimeHostResult<()>)
        ensures
            self.valid() ==> result is Ok,
            !self.valid() ==> result == Err::<(), _>(
                observe_error("performance_pipeline_observation_invalid"),
            ),
    {
        if !valid_instance_name(self.instance_id.as_str()) || self.observed_at_unix_ms == 0 {
            return Err(observe_fatal("performance_pipeline_observation_invalid"));
        }
        Ok(())
    }
}

/// An identifier that an event must carry.
pub open spec fn needed(id: Option<u128>, code: &'static str) -> Result<u128, RuntimeHostError> {
    match id {
        Some(id) => Ok(id),
        None => Err(observe_error(code)),
    }
}

pub fn required_id(id: Option<u128>, code: &'static str) -> (result: RuntimeHostResult<u128>)
    ensures
        result == needed(id, code),
{
    match id {
        Some(id) => Ok(id),
        None => Err(observe_fatal(code)),
    }
}

/// The start of something whose end is awaited.
#[derive(Debug, Clone)]
pub struct PendingPipelineMeasurement {
    pub instance_id: String,
    pub started_at_unix_ms: u64,
    pub frame_id: Option<u128>,
}

/// The starts whose ends are awaited.
pub type Starts = Map<u128, PendingPipelineMeasurement>;

/// The starts after one more; an identifier is used once, and only so many
/// starts are tracked.
pub open spec fn begun(
    starts: Starts,
    id: u128,
    pending: PendingPipelineMeasurement,
    maximum: usize,
) -> Result<Starts, RuntimeHostError> {
    if starts.contains_key(id) {
        Err(observe_error("performance_pipeline_identity_reused"))
    } else if starts.len() >= maximum {
        Err(observe_error("performance_pipeline_tracking_exhausted"))
    } else {
        Ok(starts.insert(id, pending))
    }
}

pub fn insert_pending(
    starts: &mut OrderedMap<u128, PendingPipelineMeasurement>,
    id: u128,
    pending: PendingPipelineMeasurement,
    maximum: usize,
) -> (result: RuntimeHostResult<()>)
    requires
        old(starts).wf(),
    ensures
        final(starts).wf(),
        match begun(old(starts)@, id, pending, maximum) {
            Ok(after) => result is Ok && final(starts)@ == after,
            Err(error) => result == Err::<(), _>(error) && final(starts)@ == old(starts)@,
        },
{
    if starts.contains(&id) {
        return Err(observe_fatal("performance_pipeline_identity_reused"));
    }
    proof {
        lemma_keys_are_domain(*starts);
    }
    if starts.len() >= maximum {
        return Err(observe_fatal("performance_pipeline_tracking_exhausted"));
    }
    starts.insert(id, pending);
    Ok(())
}

/// How long something took that ends now: of the same instance, of the same
/// frame where one is given, and not before it began.
pub open spec fn latency(
    starts: Starts,
    id: u128,
    instance_id: Seq<char>,
    frame_id: Option<u128>,
    at: u64,
) -> Result<u64, RuntimeHostError> {
    if !starts.contains_key(id) {
        Err(observe_error("performance_pipeline_start_missing"))
    } else {
        let pending = starts[id];
        if pending.instance_id@ != instance_id || (frame_id is Some && pending.frame_id
            != frame_id) {
            Err(observe_error("performance_pipeline_identity_conflict"))
        } else if at < pending.started_at_unix_ms {
            Err(observe_error("performance_pipeline_time_invalid"))
        } else {
            Ok((at - pending.started_at_unix_ms) as u64)
        }
    }
}

/// The time between two instants that came in order.
pub open spec fn elapsed(started_at: u64, observed_at: u64) -> Result<u64, RuntimeHostError> {
    if observed_at >= started_at {
        Ok((observed_at - started_at) as u64)
    } else {
        Err(observe_error("performance_pipeline_time_invalid"))
    }
}

pub fn elapsed_ms(started_at_unix_ms: u64, observed_at_unix_ms: u64) -> (result: RuntimeHostResult<
    u64,
>)
    ensures
        result == elapsed(started_at_unix_ms, observed_at_unix_ms),
{
    match observed_at_unix_ms.checked_sub(started_at_unix_ms) {
        Some(value) => Ok(value),
        None => Err(observe_fatal("performance_pipeline_time_invalid")),
    }
}

/// Ends what was begun under an identifier, whatever comes of it.
pub fn take_latency(
    starts: &mut OrderedMap<u128, PendingPipelineMeasurement>,
    id: u128,
    instance_id: &str,
    frame_id: Option<u128>,
    at: u64,
) -> (result: RuntimeHostResult<u64>)
    requires
        old(starts).wf(),
    ensures
        final(starts).wf(),
        final(starts)@ == old(starts)@.remove(id),
        result == latency(old(starts)@, id, instance_id@, frame_id, at),
{
    match starts.remove(&id) {
        None => Err(observe_fatal("performance_pipeline_start_missing")),
        Some(pending) => {
            if !same_text(pending.instance_id.as_str(), instance_id) {
                return Err(observe_fatal("performance_pipeline_identity_conflict"));
            }
            if let Some(expected) = frame_id {
                let same_frame = match pending.frame_id {
                    Some(frame) => frame == expected,
                    None => false,
                };
                if !same_frame {
                    return Err(observe_fatal("performance_pipeline_identity_conflict"));
                }
            }
            elapsed_ms(pending.started_at_unix_ms, at)
        },
    }
}

/// The starts of all instances but one.
pub open spec fn without_instance(starts: Starts, instance_id: Seq<char>) -> Starts {
    starts.remove_keys(Set::new(|id: u128| starts[id].instance_id@ == instance_id))
}

/// Gives up what an instance has begun.
pub fn drop_instance(
    starts: &mut OrderedMap<u128, PendingPipelineMeasurement>,
    instance_id: &str,
)
    requires
        old(starts).wf(),
    ensures
        final(starts).wf(),
        final(starts)@ == without_instance(old(starts)@, instance_id@),
        final(starts)@.len() <= old(starts)@.len(),
{
    let ghost original = starts@;
    proof {
        lemma_keys_are_domain(*starts);
    }
    let mut position: usize = 0;
    while position < starts.len()
        invariant
            starts.wf(),
            position <= starts.entries@.len(),
            forall|id: u128| #[trigger]
                starts@.contains_key(id) ==> original.contains_key(id) && starts@[id]
                    == original[id],
            forall|id: u128| #[trigger]
                original.contains_key(id) && original[id].instance_id@ != instance_id@
                    ==> starts@.contains_key(id),
            forall|i: int|
                0 <= i < position ==> (#[trigger] starts.entries@[i]).1.instance_id@
                    != instance_id@,
        decreases starts.entries@.len() - position,
    {
        proof {
            crate::ordered_map::lemma_entry(starts.entries@, position as int);
        }
        if same_text(starts.entries[position].1.instance_id.as_str(), instance_id) {
            let ghost before = starts.entries@;
            let ghost key = starts.keys()[position as int];
            assert(starts@.contains_key(key));
            starts.remove_at(position);
            assert forall|i: int| 0 <= i < position implies (
            #[trigger] starts.entries@[i]).1.instance_id@ != instance_id@ by {
                assert(starts.entries@[i] == before[i]);
            }
        } else {
            position += 1;
        }
    }
    proof {
        let wanted = without_instance(original, instance_id@);
        assert forall|id: u128| #[trigger] starts@.contains_key(id) == wanted.contains_key(id) by {
            if starts@.contains_key(id) {
                let keys = starts.keys();
                assert(keys.contains(id));
                let i = keys.index_of(id);
                assert(keys[i] == id);
                crate::ordered_map::lemma_entry(starts.entries@, i);
                assert(starts.entries@[i].1.instance_id@ != instance_id@);
            }
        }
        assert(starts@ =~= wanted);
        assert(starts@.dom().subset_of(original.dom()));
        lemma_keys_are_domain(*old(starts));
        vstd::set_lib::lemma_len_subset(starts@.dom(), original.dom());
    }
}

/// How responsive a signal shows the host to be is the worst of what it
/// measures: never better than the score of any of its latencies against its
/// own target, and the score of one of them. Without a latency it shows
/// nothing.
pub proof fn law_slowest_stage_decides(signal: PipelinePerformanceSignal)
    ensures
        responsiveness(signal) is Some <==> signal.frame_gap_ms is Some
            || signal.capture_latency_ms is Some || signal.recognition_latency_ms is Some
            || signal.action_effect_latency_ms is Some,
        responsiveness(signal) matches Some(worst) ==> {
            &&& signal.frame_gap_ms matches Some(took) ==> worst <= score(took, 1_000)
            &&& signal.capture_latency_ms matches Some(took) ==> worst <= score(took, 500)
            &&& signal.recognition_latency_ms matches Some(took) ==> worst <= score(took, 1_000)
            &&& signal.action_effect_latency_ms matches Some(took) ==> worst <= score(took, 1_500)
            &&& {
                ||| signal.frame_gap_ms matches Some(took) && worst == score(took, 1_000)
                ||| signal.capture_latency_ms matches Some(took) && worst == score(took, 500)
                ||| signal.recognition_latency_ms matches Some(took) && worst == score(took, 1_000)
                ||| signal.action_effect_latency_ms matches Some(took) && worst == score(
                    took,
                    1_500,
                )
            }
        },
{
    if let Some(took) = signal.frame_gap_ms {
        law_score_is_the_share_of_the_target(took, 1_000, took);
    }
    if let Some(took) = signal.capture_latency_ms {
        law_score_is_the_share_of_the_target(took, 500, took);
    }
    if let Some(took) = signal.recognition_latency_ms {
        law_score_is_the_share_of_the_target(took, 1_000, took);
    }
    if let Some(took) = signal.action_effect_latency_ms {
        law_score_is_the_share_of_the_target(took, 1_500, took);
    }
}

/// What was begun is measured from its beginning to its end, for the same
/// instance and, where a frame is given, the same frame; nothing else that was
/// begun is affected.
pub proof fn law_latency_is_the_time_since_the_start(
    starts: Starts,
    id: u128,
    pending: PendingPipelineMeasurement,
    maximum: usize,
    instance_id: Seq<char>,
    frame_id: Option<u128>,
    at: u64,
    other: u128,
)
    requires
        begun(starts, id, pending, maximum) is Ok,
        other != id,
    ensures
        ({
            let after = begun(starts, id, pending, maximum)->Ok_0;
            let own = pending.instance_id@ == instance_id && (frame_id is None || frame_id
                == pending.frame_id);
            &&& latency(after, id, instance_id, frame_id, at) is Ok <==> own && at
                >= pending.started_at_unix_ms
            &&& latency(after, id, instance_id, frame_id, at) matches Ok(took) ==> took
                + pending.started_at_unix_ms == at
            &&& after.contains_key(other) == starts.contains_key(other)
            &&& after[other] == starts[other]
        }),
{
}

/// Something is begun exactly where its identifier is not in use and there is
/// room, and an end without a beginning is refused.
pub proof fn law_identifiers_are_used_once(
    starts: Starts,
    id: u128,
    pending: PendingPipelineMeasurement,
    maximum: usize,
    instance_id: Seq<char>,
    frame_id: Option<u128>,
    at: u64,
)
    ensures
        begun(starts, id, pending, maximum) is Ok <==> !starts.contains_key(id) && starts.len()
            < maximum,
        !starts.contains_key(id) ==> (latency(starts, id, instance_id, frame_id, at) matches Err(
            error,
        ) && error.code == "performance_pipeline_start_missing"),
        starts.contains_key(id) && starts[id].instance_id@ != instance_id ==> (latency(
            starts,
            id,
            instance_id,
            frame_id,
            at,
        ) matches Err(error) && error.code == "performance_pipeline_identity_conflict"),
{
}

/// Giving up an instance gives up all that it began and nothing of another.
pub proof fn law_given_up_instance_has_begun_nothing(
    starts: Starts,
    instance_id: Seq<char>,
    id: u128,
)
    ensures
        without_instance(starts, instance_id).contains_key(id) <==> starts.contains_key(id)
            && starts[id].instance_id@ != instance_id,
        without_instance(starts, instance_id).contains_key(id) ==> without_instance(
            starts,
            instance_id,
        )[id] == starts[id],
{
}

/// A signal is taken only of a named instance, with a time, with something
/// measured and no empty gap.
pub proof fn law_signals_measure_something(signal: PipelinePerformanceSignal)
    ensures
        signal.valid() <==> {
            &&& instance_name_valid(signal.instance_id@)
            &&& signal.observed_at_unix_ms != 0
            &&& !(signal.frame_gap_ms is None && signal.capture_latency_ms is None
                && signal.recognition_latency_ms is None && signal.action_effect_latency_ms
                is None)
            &&& signal.frame_gap_ms is Some ==> signal.frame_gap_ms->0 > 0
        },
{
}

} // verus!
