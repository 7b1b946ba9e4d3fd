//! How much room the volumes of the host have, and whether new work may begin.

use vstd::prelude::*;

use crate::error::{RuntimeHostError, RuntimeHostResult};
use crate::ids::OwnerEpoch;
use crate::text::{optional_text, same_text};

verus! {

/// What a volume is used for.
#[derive(Debug, Clone, Copy, PartialEq, Eq, Structural)]
pub enum CapacityPurpose {
    Installation,
    State,
    Artifact,
    ArtifactStaging,
}

/// Below which amount of free space there is pressure.
#[derive(Debug, Clone, Copy, PartialEq, Eq, Structural)]
pub struct CapacityThresholds {
    pub soft_bytes: u64,
    pub hard_bytes: u64,
}

#[derive(Debug, Clone, Copy, PartialEq, Eq, Structural)]
pub enum CapacityState {
    Sufficient,
    SoftPressure,
    HardPressure,
    Unknown,
}

/// The start of a text from the operating system.
#[derive(Debug, Clone, PartialEq, Eq)]
pub struct LifecycleNativeDetail {
    pub text: String,
    pub truncated: bool,
}

/// Why the room of a volume is not known.
#[derive(Debug, Clone, PartialEq, Eq)]
pub struct CapacityNativeCause {
    pub operation: String,
    pub raw_os_error: Option<i32>,
    pub detail: LifecycleNativeDetail,
}

/// The error of a look at a volume.
#[derive(Debug)]
pub struct VolumeError {
    pub operation: String,
    pub raw_os_error: Option<i32>,
    pub detail: String,
}

/// A volume as it was looked at. The targets are numbers of capacity targets.
#[derive(Debug)]
pub struct RawVolume {
    pub volume_id: Option<String>,
    pub targets: Vec<usize>,
    pub available_bytes: Result<u64, VolumeError>,
}

#[derive(Debug, Clone, PartialEq, Eq)]
pub struct CapacityVolumeSample {
    pub volume_id: Option<String>,
    pub purposes: Vec<CapacityPurpose>,
    pub available_bytes: Option<u64>,
    pub state: CapacityState,
    pub cause: Option<CapacityNativeCause>,
}

#[derive(Debug, Clone, PartialEq, Eq)]
pub struct PerformanceCapacitySample {
    pub owner_epoch: OwnerEpoch,
    pub observed_at_unix_ms: u64,
    pub observed_at_monotonic_ms: u64,
    pub freshness_ms: u64,
    pub thresholds: CapacityThresholds,
    pub volumes: Vec<CapacityVolumeSample>,
}

/// The event that recorded a sample.
#[derive(Debug, Clone, Copy, PartialEq, Eq, Structural)]
pub struct CapacityFactReference {
    pub event_id: u128,
    pub sequence: u64,
    pub owner_epoch: OwnerEpoch,
    pub observed_at_unix_ms: u64,
    pub observed_at_monotonic_ms: u64,
}

#[derive(Debug, Clone, Copy, PartialEq, Eq, Structural)]
pub enum CapacityAdmissionOutcome {
    Allowed,
    SoftPressure,
    HardPressure,
    RequiredBytesOverflow,
    Unknown,
}

#[derive(Debug, Clone, Copy, PartialEq, Eq, Structural)]
pub enum CapacityAdmissionReason {
    NoCommittedFact,
    OwnerChanged,
    SampleUnavailable,
    OutsideFreshness,
    BindingChanged,
    KnownBytesOverflow,
    HardThreshold,
    FreshSample,
}

#[derive(Debug, Clone, PartialEq, Eq)]
pub struct CapacityDecision {
    pub owner_epoch: OwnerEpoch,
    pub decided_at_unix_ms: u64,
    pub decided_at_monotonic_ms: u64,
    pub requested_bytes: u64,
    pub target_volume: Option<String>,
    pub outcome: CapacityAdmissionOutcome,
    pub reason: CapacityAdmissionReason,
    pub fact: Option<CapacityFactReference>,
}

/// An instant on both clocks of the host.
#[derive(Debug, Clone, Copy, PartialEq, Eq, Structural)]
pub struct RuntimeClockSample {
    pub unix_ms: u64,
    pub monotonic_ms: u64,
}

/// A sample and the event that recorded it.
#[derive(Debug, Clone)]
pub struct CommittedCapacity {
    pub sample: PerformanceCapacitySample,
    pub reference: CapacityFactReference,
}

/// The last sample that was recorded. It comes from that record alone.
#[derive(Debug, Clone)]
pub struct CapacityProjection {
    pub owner_epoch: OwnerEpoch,
    pub committed: Option<CommittedCapacity>,
}

/// On which volume a purpose is now, nothing where that is not known.
pub type Binding = (CapacityPurpose, Option<String>);

/// The sample was taken not too long ago, and not in the future.
pub open spec fn is_fresh(observed: u64, now: u64, freshness_ms: u64) -> bool {
    observed <= now && now - observed <= freshness_ms
}

/// A volume serves a purpose under an id.
pub open spec fn serves(
    volume: CapacityVolumeSample,
    purpose: CapacityPurpose,
    id: Seq<char>,
) -> bool {
    volume.purposes@.contains(purpose) && optional_text(volume.volume_id) == Some(id)
}

/// A purpose is still where the sample found it.
pub open spec fn still_bound(volumes: Seq<CapacityVolumeSample>, binding: Binding) -> bool {
    binding.1 is Some && exists|i: int|
        0 <= i < volumes.len() && serves(#[trigger] volumes[i], binding.0, (binding.1->0)@)
}

/// Artifacts go to a volume with this id.
pub open spec fn takes_artifacts(volumes: Seq<CapacityVolumeSample>, id: Seq<char>) -> bool {
    exists|i: int|
        0 <= i < volumes.len() && (serves(#[trigger] volumes[i], CapacityPurpose::Artifact, id)
            || serves(volumes[i], CapacityPurpose::ArtifactStaging, id))
}

/// The volume that a request is for, where it is known.
pub open spec fn known_target(target: Option<Option<String>>) -> Option<Seq<char>> {
    match target {
        Some(binding) => optional_text(binding),
        None => None,
    }
}

/// Everything is where the sample found it.
pub open spec fn bindings_hold(
    volumes: Seq<CapacityVolumeSample>,
    bindings: Seq<Binding>,
    target: Option<Option<String>>,
) -> bool {
    &&& forall|i: int| 0 <= i < bindings.len() ==> still_bound(volumes, #[trigger] bindings[i])
    &&& target is Some ==> known_target(target) is Some && takes_artifacts(
        volumes,
        known_target(target)->0,
    )
}

pub open spec fn all_known(volumes: Seq<CapacityVolumeSample>) -> bool {
    forall|i: int| 0 <= i < volumes.len() ==> (#[trigger] volumes[i]).available_bytes is Some
}

/// How much a volume has to have free: the hard limit, and what was asked for
/// if it is the target.
pub open spec fn required_bytes(
    volume: CapacityVolumeSample,
    thresholds: CapacityThresholds,
    target: Option<Seq<char>>,
    bytes: u64,
) -> int {
    thresholds.hard_bytes + if target == optional_text(volume.volume_id) {
        bytes as int
    } else {
        0
    }
}

/// The answer for some volumes with known room, looked at in order.
pub open spec fn answer(
    volumes: Seq<CapacityVolumeSample>,
    thresholds: CapacityThresholds,
    target: Option<Seq<char>>,
    bytes: u64,
) -> (CapacityAdmissionOutcome, CapacityAdmissionReason)
    decreases volumes.len(),
{
    if volumes.len() == 0 {
        (CapacityAdmissionOutcome::Allowed, CapacityAdmissionReason::FreshSample)
    } else {
        let earlier = answer(volumes.drop_last(), thresholds, target, bytes);
        let volume = volumes.last();
        let free = volume.available_bytes->0;
        let required = required_bytes(volume, thresholds, target, bytes);
        if earlier.1 != CapacityAdmissionReason::FreshSample {
            earlier
        } else if required > u64::MAX {
            (
                CapacityAdmissionOutcome::RequiredBytesOverflow,
                CapacityAdmissionReason::KnownBytesOverflow,
            )
        } else if free < required {
            (CapacityAdmissionOutcome::HardPressure, CapacityAdmissionReason::HardThreshold)
        } else if free < thresholds.soft_bytes {
            (CapacityAdmissionOutcome::SoftPressure, CapacityAdmissionReason::FreshSample)
        } else {
            earlier
        }
    }
}

impl CapacityProjection {
    /// What is decided for a request, and why.
    pub open spec fn verdict(
        &self,
        bindings: Seq<Binding>,
        target: Option<Option<String>>,
        bytes: u64,
        now: RuntimeClockSample,
    ) -> (CapacityAdmissionOutcome, CapacityAdmissionReason) {
        let unknown = CapacityAdmissionOutcome::Unknown;
        match self.committed {
            None => (unknown, CapacityAdmissionReason::NoCommittedFact),
            Some(committed) => {
                let sample = committed.sample;
                if sample.owner_epoch != self.owner_epoch {
                    (unknown, CapacityAdmissionReason::OwnerChanged)
                } else if !all_known(sample.volumes@) {
                    (unknown, CapacityAdmissionReason::SampleUnavailable)
                } else if !is_fresh(sample.observed_at_unix_ms, now.unix_ms, sample.freshness_ms)
                    || !is_fresh(
                    sample.observed_at_monotonic_ms,
                    now.monotonic_ms,
                    sample.freshness_ms,
                ) {
                    (unknown, CapacityAdmissionReason::OutsideFreshness)
                } else if !bindings_hold(sample.volumes@, bindings, target) {
                    (unknown, CapacityAdmissionReason::BindingChanged)
                } else {
                    answer(sample.volumes@, sample.thresholds, known_target(target), bytes)
                }
            },
        }
    }

    /// Decides about a request from the last recorded sample.
    pub fn decide(
        &self,
        bindings: &Vec<Binding>,
        target: &Option<Option<String>>,
        bytes: u64,
        now: RuntimeClockSample,
    ) -> (decision: CapacityDecision)
        ensures
            decision.owner_epoch == self.owner_epoch,
            decision.decided_at_unix_ms == now.unix_ms,
            decision.decided_at_monotonic_ms == now.monotonic_ms,
            decision.requested_bytes == bytes,
            optional_text(decision.target_volume) == known_target(*target),
            decision.fact == match self.committed {
                Some(committed) => Some(committed.reference),
                None => None,
            },
            (decision.outcome, decision.reason) == self.verdict(bindings@, *target, bytes, now),
    {
        let target_volume: Option<String> = match target {
            Some(Some(id)) => Some(id.clone()),
            _ => None,
        };
        let mut decision = CapacityDecision {
            owner_epoch: self.owner_epoch,
            decided_at_unix_ms: now.unix_ms,
            decided_at_monotonic_ms: now.monotonic_ms,
            requested_bytes: bytes,
            target_volume,
            outcome: CapacityAdmissionOutcome::Unknown,
            reason: CapacityAdmissionReason::NoCommittedFact,
            fact: match &self.committed {
                Some(committed) => Some(committed.reference),
                None => None,
            },
        };
        let sample = match &self.committed {
            Some(committed) => &committed.sample,
            None => {
                return decision;
            },
        };
        if sample.owner_epoch != self.owner_epoch {
            decision.reason = CapacityAdmissionReason::OwnerChanged;
        } else if !every_volume_known(&sample.volumes) {
            decision.reason = CapacityAdmissionReason::SampleUnavailable;
        } else if now.unix_ms < sample.observed_at_unix_ms || now.unix_ms
            - sample.observed_at_unix_ms > sample.freshness_ms || now.monotonic_ms
            < sample.observed_at_monotonic_ms || now.monotonic_ms - sample.observed_at_monotonic_ms
            > sample.freshness_ms {
            decision.reason = CapacityAdmissionReason::OutsideFreshness;
        } else if !everything_bound(&sample.volumes, bindings, target) {
            decision.reason = CapacityAdmissionReason::BindingChanged;
        } else {
            let (outcome, reason) = look_through(
                &sample.volumes,
                sample.thresholds,
                &decision.target_volume,
                bytes,
            );
            decision.outcome = outcome;
            decision.reason = reason;
        }
        decision
    }

    /// Takes over the sample that an event recorded. Where it was not
    /// recorded, nothing is known any more.
    pub fn commit(
        &mut self,
        sample: PerformanceCapacitySample,
        recorded: RuntimeHostResult<(u128, u64)>,
    ) -> (result: RuntimeHostResult<()>)
        ensures
            final(self).owner_epoch == old(self).owner_epoch,
            match recorded {
                Ok((event_id, sequence)) => {
                    &&& result == Ok::<(), RuntimeHostError>(())
                    &&& final(self).committed == Some(
                        CommittedCapacity {
                            sample,
                            reference: CapacityFactReference {
                                event_id,
                                sequence,
                                owner_epoch: sample.owner_epoch,
                                observed_at_unix_ms: sample.observed_at_unix_ms,
                                observed_at_monotonic_ms: sample.observed_at_monotonic_ms,
                            },
                        },
                    )
                },
                Err(error) => result == Err::<(), _>(error) && final(self).committed is None,
            },
    {
        match recorded {
            Err(error) => {
                self.committed = None;
                Err(error)
            },
            Ok((event_id, sequence)) => {
                let reference = CapacityFactReference {
                    event_id,
                    sequence,
                    owner_epoch: sample.owner_epoch,
                    observed_at_unix_ms: sample.observed_at_unix_ms,
                    observed_at_monotonic_ms: sample.observed_at_monotonic_ms,
                };
                self.committed = Some(CommittedCapacity { sample, reference });
                Ok(())
            },
        }
    }
}

fn every_volume_known(volumes: &Vec<CapacityVolumeSample>) -> (known: bool)
    ensures
        known == all_known(volumes@),
{
    let mut index: usize = 0;
    while index < volumes.len()
        invariant
            index <= volumes.len(),
            forall|i: int| 0 <= i < index ==> (#[trigger] volumes@[i]).available_bytes is Some,
        decreases volumes.len() - index,
    {
        if volumes[index].available_bytes.is_none() {
            assert(volumes@[index as int].available_bytes is None);
            return false;
        }
        index += 1;
    }
    true
}

fn lists_purpose(purposes: &Vec<CapacityPurpose>, purpose: CapacityPurpose) -> (listed: bool)
    ensures
        listed == purposes@.contains(purpose),
{
    let mut index: usize = 0;
    while index < purposes.len()
        invariant
            index <= purposes.len(),
            forall|i: int| 0 <= i < index ==> purposes@[i] != purpose,
        decreases purposes.len() - index,
    {
        if purposes[index] == purpose {
            return true;
        }
        index += 1;
    }
    false
}

fn volume_serves(volume: &CapacityVolumeSample, purpose: CapacityPurpose, id: &str) -> (found: bool)
    ensures
        found == serves(*volume, purpose, id@),
{
    let same_volume = match &volume.volume_id {
        Some(known) => same_text(known.as_str(), id),
        None => false,
    };
    same_volume && lists_purpose(&volume.purposes, purpose)
}

fn binding_holds(volumes: &Vec<CapacityVolumeSample>, binding: &Binding) -> (holds: bool)
    ensures
        holds == still_bound(volumes@, *binding),
{
    let id = match &binding.1 {
        Some(id) => id,
        None => {
            return false;
        },
    };
    let mut index: usize = 0;
    while index < volumes.len()
        invariant
            index <= volumes.len(),
            binding.1 == Some(*id),
            forall|i: int| 0 <= i < index ==> !serves(#[trigger] volumes@[i], binding.0, id@),
        decreases volumes.len() - index,
    {
        if volume_serves(&volumes[index], binding.0, id.as_str()) {
            assert(serves(volumes@[index as int], binding.0, id@));
            return true;
        }
        index += 1;
    }
    false
}

fn holds_artifacts(volumes: &Vec<CapacityVolumeSample>, id: &str) -> (holds: bool)
    ensures
        holds == takes_artifacts(volumes@, id@),
{
    let mut index: usize = 0;
    while index < volumes.len()
        invariant
            index <= volumes.len(),
            forall|i: int|
                0 <= i < index ==> !serves(
                    #[trigger] volumes@[i],
                    CapacityPurpose::Artifact,
                    id@,
                ) && !serves(volumes@[i], CapacityPurpose::ArtifactStaging, id@),
        decreases volumes.len() - index,
    {
        if volume_serves(&volumes[index], CapacityPurpose::Artifact, id) || volume_serves(
            &volumes[index],
            CapacityPurpose::ArtifactStaging,
            id,
        ) {
            let ghost volume = volumes@[index as int];
            return true;
        }
        index += 1;
    }
    false
}

fn everything_bound(
    volumes: &Vec<CapacityVolumeSample>,
    bindings: &Vec<Binding>,
    target: &Option<Option<String>>,
) -> (bound: bool)
    ensures
        bound == bindings_hold(volumes@, bindings@, *target),
{
    let mut index: usize = 0;
    while index < bindings.len()
        invariant
            index <= bindings.len(),
            forall|i: int| 0 <= i < index ==> still_bound(volumes@, #[trigger] bindings@[i]),
        decreases bindings.len() - index,
    {
        if !binding_holds(volumes, &bindings[index]) {
            assert(!still_bound(volumes@, bindings@[index as int]));
            return false;
        }
        index += 1;
    }
    match target {
        None => true,
        Some(None) => false,
        Some(Some(id)) => holds_artifacts(volumes, id.as_str()),
    }
}

fn look_through(
    volumes: &Vec<CapacityVolumeSample>,
    thresholds: CapacityThresholds,
    target: &Option<String>,
    bytes: u64,
) -> (answered: (CapacityAdmissionOutcome, CapacityAdmissionReason))
    requires
        all_known(volumes@),
    ensures
        answered == answer(volumes@, thresholds, optional_text(*target), bytes),
{
    let mut outcome = CapacityAdmissionOutcome::Allowed;
    let mut index: usize = 0;
    assert(volumes@.take(0) =~= Seq::empty());
    while index < volumes.len()
        invariant
            index <= volumes.len(),
            all_known(volumes@),
            answer(volumes@.take(index as int), thresholds, optional_text(*target), bytes) == (
                outcome,
                CapacityAdmissionReason::FreshSample,
            ),
        decreases volumes.len() - index,
    {
        let volume = &volumes[index];
        let ghost taken = volumes@.take(index + 1);
        proof {
            assert(taken.drop_last() =~= volumes@.take(index as int));
            assert(taken.last() == *volume);
            if answer(taken, thresholds, optional_text(*target), bytes).1
                != CapacityAdmissionReason::FreshSample {
                lemma_answer_stays(volumes@, thresholds, optional_text(*target), bytes, index + 1);
            }
        }
        let free: u64 = match volume.available_bytes {
            Some(free) => free,
            None => 0,
        };
        let same_volume = match (target, &volume.volume_id) {
            (Some(target), Some(id)) => same_text(target.as_str(), id.as_str()),
            (None, None) => true,
            _ => false,
        };
        let added: u64 = if same_volume {
            bytes
        } else {
            0
        };
        match thresholds.hard_bytes.checked_add(added) {
            None => {
                return (
                    CapacityAdmissionOutcome::RequiredBytesOverflow,
                    CapacityAdmissionReason::KnownBytesOverflow,
                );
            },
            Some(required) => {
                if free < required {
                    return (
                        CapacityAdmissionOutcome::HardPressure,
                        CapacityAdmissionReason::HardThreshold,
                    );
                }
            },
        }
        if free < thresholds.soft_bytes {
            outcome = CapacityAdmissionOutcome::SoftPressure;
        }
        index += 1;
    }
    assert(volumes@.take(volumes@.len() as int) =~= volumes@);
    (outcome, CapacityAdmissionReason::FreshSample)
}

proof fn lemma_answer_stays(
    volumes: Seq<CapacityVolumeSample>,
    thresholds: CapacityThresholds,
    target: Option<Seq<char>>,
    bytes: u64,
    count: int,
)
    requires
        0 <= count <= volumes.len(),
        answer(volumes.take(count), thresholds, target, bytes).1
            != CapacityAdmissionReason::FreshSample,
    ensures
        answer(volumes, thresholds, target, bytes) == answer(
            volumes.take(count),
            thresholds,
            target,
            bytes,
        ),
    decreases volumes.len(),
{
    if count == volumes.len() {
        assert(volumes.take(count) =~= volumes);
    } else {
        assert(volumes.drop_last().take(count) =~= volumes.take(count));
        lemma_answer_stays(volumes.drop_last(), thresholds, target, bytes, count);
    }
}

/// Work is allowed without pressure only if every volume has its soft limit
/// free, and on the target what was asked for above the hard limit.
pub proof fn law_allowed_leaves_the_reserve(
    volumes: Seq<CapacityVolumeSample>,
    thresholds: CapacityThresholds,
    target: Option<Seq<char>>,
    bytes: u64,
    index: int,
)
    requires
        all_known(volumes),
        0 <= index < volumes.len(),
        answer(volumes, thresholds, target, bytes).1 == CapacityAdmissionReason::FreshSample,
    ensures
        volumes[index].available_bytes->0 >= required_bytes(
            volumes[index],
            thresholds,
            target,
            bytes,
        ),
        answer(volumes, thresholds, target, bytes).0 == CapacityAdmissionOutcome::Allowed
            ==> volumes[index].available_bytes->0 >= thresholds.soft_bytes,
    decreases volumes.len(),
{
    if index < volumes.len() - 1 {
        let rest = volumes.drop_last();
        assert forall|i: int| 0 <= i < rest.len() implies (
        #[trigger] rest[i]).available_bytes is Some by {
            assert(volumes[i].available_bytes is Some);
        }
        law_allowed_leaves_the_reserve(rest, thresholds, target, bytes, index);
    }
}

/// The room of a volume is short of the hard limit, together with what was
/// asked for where the volume is the one it is for.
pub open spec fn falls_short(
    volume: CapacityVolumeSample,
    thresholds: CapacityThresholds,
    target: Option<Seq<char>>,
    bytes: u64,
) -> bool {
    let asked = if optional_text(volume.volume_id) == target {
        bytes as int
    } else {
        0
    };
    volume.available_bytes matches Some(free) && free < thresholds.hard_bytes + asked
}

/// A request is refused exactly where some volume would be left with less than
/// the hard limit, is under soft pressure where none would but some has less
/// than the soft limit, and is allowed otherwise.
pub proof fn law_least_room_decides(
    volumes: Seq<CapacityVolumeSample>,
    thresholds: CapacityThresholds,
    target: Option<Seq<char>>,
    bytes: u64,
)
    requires
        all_known(volumes),
        thresholds.hard_bytes + bytes <= u64::MAX,
    ensures
        ({
            let (outcome, reason) = answer(volumes, thresholds, target, bytes);
            let short = exists|i: int|
                0 <= i < volumes.len() && falls_short(
                    #[trigger] volumes[i],
                    thresholds,
                    target,
                    bytes,
                );
            let tight = exists|i: int|
                0 <= i < volumes.len() && (#[trigger] volumes[i]).available_bytes->0
                    < thresholds.soft_bytes;
            &&& outcome == CapacityAdmissionOutcome::HardPressure <==> short
            &&& reason == CapacityAdmissionReason::HardThreshold <==> short
            &&& reason == CapacityAdmissionReason::FreshSample <==> !short
            &&& outcome == CapacityAdmissionOutcome::SoftPressure <==> !short && tight
            &&& outcome == CapacityAdmissionOutcome::Allowed <==> !short && !tight
        }),
    decreases volumes.len(),
{
    if volumes.len() > 0 {
        let rest = volumes.drop_last();
        let last = volumes.len() - 1;
        assert forall|i: int| 0 <= i < rest.len() implies (
        #[trigger] rest[i]).available_bytes is Some by {
            assert(volumes[i].available_bytes is Some);
        }
        law_least_room_decides(rest, thresholds, target, bytes);
        assert(volumes[last].available_bytes is Some);
        let short = exists|i: int|
            0 <= i < rest.len() && falls_short(#[trigger] rest[i], thresholds, target, bytes);
        if short {
            let i = choose|i: int|
                0 <= i < rest.len() && falls_short(#[trigger] rest[i], thresholds, target, bytes);
            assert(falls_short(volumes[i], thresholds, target, bytes));
        } else {
            assert forall|i: int| 0 <= i < last implies !falls_short(
                #[trigger] volumes[i],
                thresholds,
                target,
                bytes,
            ) by {
                assert(rest[i] == volumes[i]);
            }
        }
        let tight = exists|i: int|
            0 <= i < rest.len() && (#[trigger] rest[i]).available_bytes->0 < thresholds.soft_bytes;
        if tight {
            let i = choose|i: int|
                0 <= i < rest.len() && (#[trigger] rest[i]).available_bytes->0
                    < thresholds.soft_bytes;
            assert(volumes[i].available_bytes->0 < thresholds.soft_bytes);
        } else {
            assert forall|i: int| 0 <= i < last implies (
            #[trigger] volumes[i]).available_bytes->0 >= thresholds.soft_bytes by {
                assert(rest[i] == volumes[i]);
            }
        }
        assert(falls_short(volumes[last], thresholds, target, bytes) == (
        volumes.last().available_bytes->0 < required_bytes(
            volumes.last(),
            thresholds,
            target,
            bytes,
        )));
    }
}

/// Nothing is known exactly where no sample of this owner was recorded, the
/// sample misses the room of a volume, is from the future or older than it may
/// be on either clock, or something is not where the sample found it.
pub proof fn law_unknown_room_is_told(
    projection: CapacityProjection,
    bindings: Seq<Binding>,
    target: Option<Option<String>>,
    bytes: u64,
    now: RuntimeClockSample,
)
    ensures
        projection.verdict(bindings, target, bytes, now).0 == CapacityAdmissionOutcome::Unknown
            <==> !(projection.committed matches Some(committed) && {
            let sample = committed.sample;
            &&& sample.owner_epoch == projection.owner_epoch
            &&& forall|i: int|
                0 <= i < sample.volumes@.len() ==> (
                #[trigger] sample.volumes@[i]).available_bytes is Some
            &&& sample.observed_at_unix_ms <= now.unix_ms <= sample.observed_at_unix_ms
                + sample.freshness_ms
            &&& sample.observed_at_monotonic_ms <= now.monotonic_ms
                <= sample.observed_at_monotonic_ms + sample.freshness_ms
            &&& forall|i: int|
                0 <= i < bindings.len() ==> still_bound(
                    sample.volumes@,
                    #[trigger] bindings[i],
                )
            &&& target matches Some(binding) ==> (binding matches Some(id) && takes_artifacts(
                sample.volumes@,
                id@,
            ))
        }),
{
    if let Some(committed) = projection.committed {
        lemma_answer_is_known(
            committed.sample.volumes@,
            committed.sample.thresholds,
            known_target(target),
            bytes,
        );
    }
}

proof fn lemma_answer_is_known(
    volumes: Seq<CapacityVolumeSample>,
    thresholds: CapacityThresholds,
    target: Option<Seq<char>>,
    bytes: u64,
)
    ensures
        answer(volumes, thresholds, target, bytes).0 != CapacityAdmissionOutcome::Unknown,
    decreases volumes.len(),
{
    if volumes.len() > 0 {
        lemma_answer_is_known(volumes.drop_last(), thresholds, target, bytes);
    }
}

/// A purpose is bound to a volume only by an id that is known, and artifacts go
/// only to a volume that takes them.
pub proof fn law_bindings_name_their_volume(
    volumes: Seq<CapacityVolumeSample>,
    binding: Binding,
    id: Seq<char>,
)
    ensures
        still_bound(volumes, binding) <==> exists|i: int| {
            &&& 0 <= i < volumes.len()
            &&& (#[trigger] volumes[i]).purposes@.contains(binding.0)
            &&& binding.1 matches Some(name) && (volumes[i].volume_id matches Some(own) && own@
                == name@)
        },
        takes_artifacts(volumes, id) <==> exists|i: int| {
            &&& 0 <= i < volumes.len()
            &&& (#[trigger] volumes[i]).volume_id matches Some(own) && own@ == id
            &&& volumes[i].purposes@.contains(CapacityPurpose::Artifact)
                || volumes[i].purposes@.contains(CapacityPurpose::ArtifactStaging)
        },
{
    if exists|i: int| {
        &&& 0 <= i < volumes.len()
        &&& (#[trigger] volumes[i]).purposes@.contains(binding.0)
        &&& binding.1 matches Some(name) && (volumes[i].volume_id matches Some(own) && own@
            == name@)
    } {
        let i = choose|i: int| {
            &&& 0 <= i < volumes.len()
            &&& (#[trigger] volumes[i]).purposes@.contains(binding.0)
            &&& binding.1 matches Some(name) && (volumes[i].volume_id matches Some(own) && own@
                == name@)
        };
        assert(serves(volumes[i], binding.0, (binding.1->0)@));
    }
    if still_bound(volumes, binding) {
        let i = choose|i: int|
            0 <= i < volumes.len() && serves(#[trigger] volumes[i], binding.0, (binding.1->0)@);
        assert(volumes[i].purposes@.contains(binding.0));
    }
    if takes_artifacts(volumes, id) {
        let i = choose|i: int|
            0 <= i < volumes.len() && (serves(#[trigger] volumes[i], CapacityPurpose::Artifact, id)
                || serves(volumes[i], CapacityPurpose::ArtifactStaging, id));
        assert(volumes[i].volume_id is Some);
    }
    if exists|i: int| {
        &&& 0 <= i < volumes.len()
        &&& (#[trigger] volumes[i]).volume_id matches Some(own) && own@ == id
        &&& volumes[i].purposes@.contains(CapacityPurpose::Artifact)
            || volumes[i].purposes@.contains(CapacityPurpose::ArtifactStaging)
    } {
        let i = choose|i: int| {
            &&& 0 <= i < volumes.len()
            &&& (#[trigger] volumes[i]).volume_id matches Some(own) && own@ == id
            &&& volumes[i].purposes@.contains(CapacityPurpose::Artifact)
                || volumes[i].purposes@.contains(CapacityPurpose::ArtifactStaging)
        };
        assert(serves(volumes[i], CapacityPurpose::Artifact, id) || serves(
            volumes[i],
            CapacityPurpose::ArtifactStaging,
            id,
        ));
    }
}

} // verus!
