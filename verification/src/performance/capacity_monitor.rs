//! Sampling the room of the volumes, and the events that follow from it.

use vstd::prelude::*;
use vstd::utf8::{
    encode_utf8_valid_utf8, is_char_boundary, is_char_boundary_start_end_of_seq,
};

use crate::error::{
    fatal_error, request_error, RuntimeErrorCode, RuntimeHostError, RuntimeHostResult,
};
use crate::ids::OwnerEpoch;
use crate::performance::capacity::{
    CapacityDecision, CapacityNativeCause, CapacityPurpose, CapacityState, CapacityThresholds,
    CapacityVolumeSample, LifecycleNativeDetail, PerformanceCapacitySample, RawVolume,
    RuntimeClockSample,
};
use crate::performance::monitor::EventSeverity;
use crate::performance::pressure::PerformancePressureSeverity;
use crate::period::{of_millis, Period};
use crate::text::{optional_text, utf8};

verus! {

/// How much of a text from the operating system is kept.
pub const MAX_NATIVE_DETAIL_BYTES: usize = 1024;

pub open spec fn capacity_error(code: &'static str) -> RuntimeHostError {
    fatal_error(code, "sample_capacity", RuntimeErrorCode::RuntimeFatal)
}

pub(crate) fn failure(code: &'static str) -> (error: RuntimeHostError)
    ensures
        error == capacity_error(code),
{
    RuntimeHostError::fatal(code, "sample_capacity", RuntimeErrorCode::RuntimeFatal)
}

/// The last place not after `end` where a text can be cut.
pub open spec fn cut_before(bytes: Seq<u8>, end: int) -> int
    decreases end,
{
    if end <= 0 || is_char_boundary(bytes, end) {
        end
    } else {
        cut_before(bytes, end - 1)
    }
}

pub open spec fn shorter(left: int, right: int) -> int {
    if left <= right {
        left
    } else {
        right
    }
}

/// How many bytes of a text are kept.
pub open spec fn kept_bytes(text: Seq<char>) -> int {
    cut_before(utf8(text), shorter(utf8(text).len() as int, 1024))
}

/// The start of a text, cut between two characters.
pub fn bounded_native(detail: &str) -> (bounded: LifecycleNativeDetail)
    ensures
        utf8(bounded.text@) == utf8(detail@).take(kept_bytes(detail@)),
        bounded.truncated == (kept_bytes(detail@) < utf8(detail@).len()),
        0 <= kept_bytes(detail@) <= 1024,
{
    let length: usize = detail.as_bytes().len();
    let mut end: usize = if length <= MAX_NATIVE_DETAIL_BYTES {
        length
    } else {
        MAX_NATIVE_DETAIL_BYTES
    };
    let ghost bytes = utf8(detail@);
    proof {
        encode_utf8_valid_utf8(detail@);
        is_char_boundary_start_end_of_seq(bytes);
    }
    while !detail.is_char_boundary(end)
        invariant
            end <= 1024,
            end <= length,
            bytes == utf8(detail@),
            length == bytes.len(),
            is_char_boundary(bytes, 0),
            cut_before(bytes, end as int) == kept_bytes(detail@),
        decreases end,
    {
        assert(end != 0);
        end -= 1;
    }
    let (kept, _) = detail.split_at(end);
    assert(bytes.subrange(0, end as int) =~= bytes.take(end as int));
    LifecycleNativeDetail { text: kept.to_owned(), truncated: end < length }
}

/// The pressure that an amount of free space means.
pub open spec fn state_for(free: u64, thresholds: CapacityThresholds) -> CapacityState {
    if free < thresholds.hard_bytes {
        CapacityState::HardPressure
    } else if free < thresholds.soft_bytes {
        CapacityState::SoftPressure
    } else {
        CapacityState::Sufficient
    }
}

/// The targets of a volume all exist.
pub open spec fn targets_exist(volume: RawVolume, purposes: Seq<CapacityPurpose>) -> bool {
    forall|i: int| 0 <= i < volume.targets@.len() ==> #[trigger] volume.targets@[i] < purposes.len()
}

/// What is recorded of a volume that was looked at.
pub open spec fn describes(
    sample: CapacityVolumeSample,
    volume: RawVolume,
    purposes: Seq<CapacityPurpose>,
    thresholds: CapacityThresholds,
) -> bool {
    &&& optional_text(sample.volume_id) == optional_text(volume.volume_id)
    &&& sample.purposes@ == Seq::new(
        volume.targets@.len(),
        |i: int| purposes[volume.targets@[i] as int],
    )
    &&& match volume.available_bytes {
        Ok(free) => {
            &&& sample.available_bytes == Some(free)
            &&& sample.state == state_for(free, thresholds)
            &&& sample.cause is None
        },
        Err(error) => {
            &&& sample.available_bytes is None
            &&& sample.state == CapacityState::Unknown
            &&& sample.cause is Some
            &&& (sample.cause->0).operation@ == error.operation@
            &&& (sample.cause->0).raw_os_error == error.raw_os_error
            &&& utf8((sample.cause->0).detail.text@) == utf8(error.detail@).take(
                kept_bytes(error.detail@),
            )
            &&& (sample.cause->0).detail.truncated == (kept_bytes(error.detail@) < utf8(
                error.detail@,
            ).len())
        },
    }
}

fn volume_sample(
    volume: &RawVolume,
    purposes: &Vec<CapacityPurpose>,
    thresholds: CapacityThresholds,
) -> (result: RuntimeHostResult<CapacityVolumeSample>)
    ensures
        if targets_exist(*volume, purposes@) {
            result matches Ok(sample) && describes(sample, *volume, purposes@, thresholds)
        } else {
            result matches Err(error) && error == capacity_error("invalid_capacity_sample_target")
        },
{
    let mut served: Vec<CapacityPurpose> = Vec::new();
    let mut index: usize = 0;
    while index < volume.targets.len()
        invariant
            index <= volume.targets.len(),
            served@.len() == index,
            forall|i: int|
                0 <= i < index ==> #[trigger] volume.targets@[i] < purposes@.len() && served@[i]
                    == purposes@[volume.targets@[i] as int],
        decreases volume.targets.len() - index,
    {
        let target: usize = volume.targets[index];
        if target >= purposes.len() {
            assert(!(volume.targets@[index as int] < purposes@.len()));
            return Err(failure("invalid_capacity_sample_target"));
        }
        served.push(purposes[target]);
        index += 1;
    }
    assert(served@ =~= Seq::new(
        volume.targets@.len(),
        |i: int| purposes@[volume.targets@[i] as int],
    ));
    let volume_id: Option<String> = match &volume.volume_id {
        Some(id) => Some(id.clone()),
        None => None,
    };
    match &volume.available_bytes {
        Ok(free) => {
            let state = if *free < thresholds.hard_bytes {
                CapacityState::HardPressure
            } else if *free < thresholds.soft_bytes {
                CapacityState::SoftPressure
            } else {
                CapacityState::Sufficient
            };
            Ok(
                CapacityVolumeSample {
                    volume_id,
                    purposes: served,
                    available_bytes: Some(*free),
                    state,
                    cause: None,
                },
            )
        },
        Err(error) => Ok(
            CapacityVolumeSample {
                volume_id,
                purposes: served,
                available_bytes: None,
                state: CapacityState::Unknown,
                cause: Some(
                    CapacityNativeCause {
                        operation: error.operation.clone(),
                        raw_os_error: error.raw_os_error,
                        detail: bounded_native(error.detail.as_str()),
                    },
                ),
            },
        ),
    }
}

/// The room of some volume is not known.
pub open spec fn holds_unknown(volumes: Seq<CapacityVolumeSample>) -> bool {
    exists|i: int| 0 <= i < volumes.len() && (#[trigger] volumes[i]).state == CapacityState::Unknown
}

/// Some volume is under pressure.
pub open spec fn holds_pressure(volumes: Seq<CapacityVolumeSample>) -> bool {
    exists|i: int|
        0 <= i < volumes.len() && ((#[trigger] volumes[i]).state == CapacityState::SoftPressure
            || volumes[i].state == CapacityState::HardPressure)
}

fn any_unknown(volumes: &Vec<CapacityVolumeSample>) -> (found: bool)
    ensures
        found == holds_unknown(volumes@),
{
    let mut index: usize = 0;
    while index < volumes.len()
        invariant
            index <= volumes.len(),
            forall|i: int|
                0 <= i < index ==> (#[trigger] volumes@[i]).state != CapacityState::Unknown,
        decreases volumes.len() - index,
    {
        if volumes[index].state == CapacityState::Unknown {
            assert(volumes@[index as int].state == CapacityState::Unknown);
            return true;
        }
        index += 1;
    }
    false
}

fn any_pressure(volumes: &Vec<CapacityVolumeSample>) -> (found: bool)
    ensures
        found == holds_pressure(volumes@),
{
    let mut index: usize = 0;
    while index < volumes.len()
        invariant
            index <= volumes.len(),
            forall|i: int|
                0 <= i < index ==> (#[trigger] volumes@[i]).state != CapacityState::SoftPressure
                    && volumes@[i].state != CapacityState::HardPressure,
        decreases volumes.len() - index,
    {
        let state = volumes[index].state;
        if state == CapacityState::SoftPressure || state == CapacityState::HardPressure {
            assert(volumes@[index as int].state == state);
            return true;
        }
        index += 1;
    }
    false
}

/// How urgent the event of a sample is.
pub fn sample_severity(sample: &PerformanceCapacitySample) -> (severity: EventSeverity)
    ensures
        severity == if holds_unknown(sample.volumes@) || holds_pressure(sample.volumes@) {
            EventSeverity::Warning
        } else {
            EventSeverity::Info
        },
{
    if any_unknown(&sample.volumes) || any_pressure(&sample.volumes) {
        EventSeverity::Warning
    } else {
        EventSeverity::Info
    }
}

/// Room is watched only against valid thresholds.
pub fn check_capacity_thresholds(valid: bool) -> (result: RuntimeHostResult<()>)
    ensures
        result == if valid {
            Ok::<(), RuntimeHostError>(())
        } else {
            Err(capacity_error("invalid_capacity_thresholds"))
        },
{
    if valid {
        Ok(())
    } else {
        Err(failure("invalid_capacity_thresholds"))
    }
}

/// How often the volumes are looked at: as often as the performance counters,
/// or every two seconds where those are not watched.
pub fn capacity_interval(performance: Option<Period>) -> (interval: Period)
    ensures
        interval == match performance {
            Some(interval) => interval,
            None => of_millis(2_000),
        },
{
    match performance {
        Some(interval) => interval,
        None => Period::from_millis(2_000),
    }
}

/// A sample under construction, from what the volumes gave. The sample counts
/// as fresh for two intervals.
pub fn capacity_sample(
    owner_epoch: OwnerEpoch,
    interval: Period,
    thresholds: CapacityThresholds,
    purposes: &Vec<CapacityPurpose>,
    now: RuntimeClockSample,
    raw: &Vec<RawVolume>,
) -> (result: RuntimeHostResult<PerformanceCapacitySample>)
    requires
        interval.millis * 2 <= u64::MAX,
    ensures
        if forall|i: int| 0 <= i < raw@.len() ==> targets_exist(#[trigger] raw@[i], purposes@) {
            &&& result matches Ok(sample)
            &&& sample.owner_epoch == owner_epoch
            &&& sample.observed_at_unix_ms == now.unix_ms
            &&& sample.observed_at_monotonic_ms == now.monotonic_ms
            &&& sample.freshness_ms == interval.millis * 2
            &&& sample.thresholds == thresholds
            &&& sample.volumes@.len() == raw@.len()
            &&& forall|i: int|
                0 <= i < raw@.len() ==> describes(
                    #[trigger] sample.volumes@[i],
                    raw@[i],
                    purposes@,
                    thresholds,
                )
        } else {
            result matches Err(error) && error == capacity_error("invalid_capacity_sample_target")
        },
{
    let mut volumes: Vec<CapacityVolumeSample> = Vec::new();
    let mut index: usize = 0;
    while index < raw.len()
        invariant
            index <= raw.len(),
            volumes@.len() == index,
            forall|i: int| 0 <= i < index ==> targets_exist(#[trigger] raw@[i], purposes@),
            forall|i: int|
                0 <= i < index ==> describes(
                    #[trigger] volumes@[i],
                    raw@[i],
                    purposes@,
                    thresholds,
                ),
        decreases raw.len() - index,
    {
        let volume = volume_sample(&raw[index], purposes, thresholds)?;
        volumes.push(volume);
        index += 1;
    }
    Ok(
        PerformanceCapacitySample {
            owner_epoch,
            observed_at_unix_ms: now.unix_ms,
            observed_at_monotonic_ms: now.monotonic_ms,
            freshness_ms: interval.millis as u64 * 2,
            thresholds,
            volumes,
        },
    )
}

/// A shortage of room from its start on.
#[derive(Debug, Clone, Copy, PartialEq, Eq, Structural)]
pub struct CapacityPressureRecord {
    pub severity: PerformancePressureSeverity,
    pub started_at_unix_ms: u64,
    pub last_observed_at_unix_ms: u64,
    pub available_bytes: u64,
    pub thresholds: CapacityThresholds,
}

/// An event about the room of the volumes.
#[derive(Debug, Clone, Copy, PartialEq, Eq, Structural)]
pub enum CapacityEvent {
    /// Samples fail; the failure is always `capacity_sample_unavailable`.
    MonitorDegraded { observed_at_unix_ms: u64, consecutive_failures: u16 },
    MonitorRecovered { observed_at_unix_ms: u64 },
    PressureStarted { observed_at_unix_ms: u64, pressure: CapacityPressureRecord },
    PressureEnded { observed_at_unix_ms: u64, pressure: CapacityPressureRecord },
}

/// What the monitor wants next: an event recorded, or nothing more.
#[derive(Debug, Clone, Copy, PartialEq, Eq, Structural)]
pub enum CapacityAction {
    Append { severity: EventSeverity, event: CapacityEvent },
    Done,
}

/// Watches the room of the volumes.
#[derive(Debug, Clone, Copy, PartialEq, Eq, Structural)]
pub struct CapacityMonitor {
    pub thresholds: CapacityThresholds,
    pub consecutive_failures: u16,
    pub pressure: Option<CapacityPressureRecord>,
}

/// The least room among some volumes.
pub open spec fn least_free(volumes: Seq<CapacityVolumeSample>) -> Option<u64>
    decreases volumes.len(),
{
    if volumes.len() == 0 {
        None
    } else {
        let earlier = least_free(volumes.drop_last());
        match (earlier, volumes.last().available_bytes) {
            (Some(least), Some(free)) => if free < least {
                Some(free)
            } else {
                Some(least)
            },
            (None, free) => free,
            (least, None) => least,
        }
    }
}

fn smallest_free(volumes: &Vec<CapacityVolumeSample>) -> (free: Option<u64>)
    ensures
        free == least_free(volumes@),
{
    let mut least: Option<u64> = None;
    let mut index: usize = 0;
    assert(volumes@.take(0) =~= Seq::empty());
    while index < volumes.len()
        invariant
            index <= volumes.len(),
            least == least_free(volumes@.take(index as int)),
        decreases volumes.len() - index,
    {
        proof {
            assert(volumes@.take(index + 1).drop_last() =~= volumes@.take(index as int));
        }
        least = match (least, volumes[index].available_bytes) {
            (Some(least), Some(free)) => if free < least {
                Some(free)
            } else {
                Some(least)
            },
            (None, free) => free,
            (least, None) => least,
        };
        index += 1;
    }
    assert(volumes@.take(volumes@.len() as int) =~= volumes@);
    least
}

/// The earlier of two instants.
pub open spec fn earlier(left: u64, right: u64) -> u64 {
    if left <= right {
        left
    } else {
        right
    }
}

/// The monitor after a step, and what it wants next.
pub type CapacityStep = (CapacityMonitor, Result<CapacityAction, RuntimeHostError>);

impl CapacityMonitor {
    /// The record of a shortage that is still there.
    pub open spec fn shortage(self, free: u64, now_unix_ms: u64) -> CapacityPressureRecord {
        CapacityPressureRecord {
            severity: if free < self.thresholds.hard_bytes {
                PerformancePressureSeverity::High
            } else {
                PerformancePressureSeverity::Elevated
            },
            started_at_unix_ms: match self.pressure {
                Some(pressure) => earlier(pressure.started_at_unix_ms, now_unix_ms),
                None => now_unix_ms,
            },
            last_observed_at_unix_ms: now_unix_ms,
            available_bytes: free,
            thresholds: self.thresholds,
        }
    }

    /// What follows from the least room. A shortage is recorded when it begins
    /// and when it becomes more or less severe.
    pub open spec fn pressure_step(self, volumes: Seq<CapacityVolumeSample>, now_unix_ms: u64) ->
        CapacityStep {
        match least_free(volumes) {
            None => (self, Err(capacity_error("invalid_capacity_sample"))),
            Some(free) => if free < self.thresholds.soft_bytes {
                let record = self.shortage(free, now_unix_ms);
                if self.pressure is None || (self.pressure->0).severity != record.severity {
                    (
                        self,
                        Ok(
                            CapacityAction::Append {
                                severity: if free < self.thresholds.hard_bytes {
                                    EventSeverity::Error
                                } else {
                                    EventSeverity::Warning
                                },
                                event: CapacityEvent::PressureStarted {
                                    observed_at_unix_ms: now_unix_ms,
                                    pressure: record,
                                },
                            },
                        ),
                    )
                } else {
                    (
                        CapacityMonitor { pressure: Some(record), ..self },
                        Ok(CapacityAction::Done),
                    )
                }
            } else {
                match self.pressure {
                    None => (self, Ok(CapacityAction::Done)),
                    Some(record) => (
                        CapacityMonitor { pressure: None, ..self },
                        Ok(
                            CapacityAction::Append {
                                severity: EventSeverity::Info,
                                event: CapacityEvent::PressureEnded {
                                    observed_at_unix_ms: now_unix_ms,
                                    pressure: CapacityPressureRecord {
                                        started_at_unix_ms: earlier(
                                            record.started_at_unix_ms,
                                            now_unix_ms,
                                        ),
                                        last_observed_at_unix_ms: now_unix_ms,
                                        ..record
                                    },
                                },
                            },
                        ),
                    ),
                }
            },
        }
    }

    /// What follows from a sample first. Failures are recorded the first time
    /// and the third.
    pub open spec fn first_step(self, volumes: Seq<CapacityVolumeSample>, now_unix_ms: u64) ->
        CapacityStep {
        if holds_unknown(volumes) {
            let failures = if self.consecutive_failures == u16::MAX {
                u16::MAX
            } else {
                (self.consecutive_failures + 1) as u16
            };
            (
                CapacityMonitor { consecutive_failures: failures, ..self },
                Ok(
                    if failures == 1 || failures == 3 {
                        CapacityAction::Append {
                            severity: if failures == 3 {
                                EventSeverity::Error
                            } else {
                                EventSeverity::Warning
                            },
                            event: CapacityEvent::MonitorDegraded {
                                observed_at_unix_ms: now_unix_ms,
                                consecutive_failures: failures,
                            },
                        }
                    } else {
                        CapacityAction::Done
                    },
                ),
            )
        } else if self.consecutive_failures > 0 {
            (
                self,
                Ok(
                    CapacityAction::Append {
                        severity: EventSeverity::Info,
                        event: CapacityEvent::MonitorRecovered { observed_at_unix_ms: now_unix_ms },
                    },
                ),
            )
        } else {
            self.pressure_step(volumes, now_unix_ms)
        }
    }

    /// What follows once an event was recorded or was not.
    pub open spec fn next_step(
        self,
        event: CapacityEvent,
        recorded: RuntimeHostResult<()>,
        volumes: Seq<CapacityVolumeSample>,
        now_unix_ms: u64,
    ) -> CapacityStep {
        match recorded {
            Err(error) => (self, Err(error)),
            Ok(_) => match event {
                CapacityEvent::MonitorRecovered { .. } => (CapacityMonitor {
                    consecutive_failures: 0,
                    ..self
                }).pressure_step(volumes, now_unix_ms),
                CapacityEvent::PressureStarted { pressure, .. } => (
                    CapacityMonitor { pressure: Some(pressure), ..self },
                    Ok(CapacityAction::Done),
                ),
                _ => (self, Ok(CapacityAction::Done)),
            },
        }
    }

    pub fn new(thresholds: CapacityThresholds) -> (monitor: Self)
        ensures
            monitor == (CapacityMonitor { thresholds, consecutive_failures: 0, pressure: None }),
    {
        CapacityMonitor { thresholds, consecutive_failures: 0, pressure: None }
    }

    /// Begins to record what a sample changed.
    pub fn record_transitions(&mut self, sample: &PerformanceCapacitySample, now_unix_ms: u64) -> (result:
        RuntimeHostResult<CapacityAction>)
        ensures
            (*final(self), result) == old(self).first_step(sample.volumes@, now_unix_ms),
    {
        if any_unknown(&sample.volumes) {
            if self.consecutive_failures < u16::MAX {
                self.consecutive_failures = self.consecutive_failures + 1;
            }
            let failures: u16 = self.consecutive_failures;
            if failures == 1 || failures == 3 {
                return Ok(
                    CapacityAction::Append {
                        severity: if failures == 3 {
                            EventSeverity::Error
                        } else {
                            EventSeverity::Warning
                        },
                        event: CapacityEvent::MonitorDegraded {
                            observed_at_unix_ms: now_unix_ms,
                            consecutive_failures: failures,
                        },
                    },
                );
            }
            return Ok(CapacityAction::Done);
        }
        if self.consecutive_failures > 0 {
            return Ok(
                CapacityAction::Append {
                    severity: EventSeverity::Info,
                    event: CapacityEvent::MonitorRecovered { observed_at_unix_ms: now_unix_ms },
                },
            );
        }
        self.record_pressure(sample, now_unix_ms)
    }

    /// Goes on once the wanted event was recorded or was not.
    pub fn event_recorded(
        &mut self,
        event: CapacityEvent,
        recorded: RuntimeHostResult<()>,
        sample: &PerformanceCapacitySample,
        now_unix_ms: u64,
    ) -> (result: RuntimeHostResult<CapacityAction>)
        ensures
            (*final(self), result) == old(self).next_step(
                event,
                recorded,
                sample.volumes@,
                now_unix_ms,
            ),
    {
        if let Err(error) = recorded {
            return Err(error);
        }
        match event {
            CapacityEvent::MonitorRecovered { .. } => {
                self.consecutive_failures = 0;
                self.record_pressure(sample, now_unix_ms)
            },
            CapacityEvent::PressureStarted { pressure, .. } => {
                self.pressure = Some(pressure);
                Ok(CapacityAction::Done)
            },
            _ => Ok(CapacityAction::Done),
        }
    }

    fn record_pressure(&mut self, sample: &PerformanceCapacitySample, now_unix_ms: u64) -> (result:
        RuntimeHostResult<CapacityAction>)
        ensures
            (*final(self), result) == old(self).pressure_step(sample.volumes@, now_unix_ms),
    {
        let free: u64 = match smallest_free(&sample.volumes) {
            Some(free) => free,
            None => {
                return Err(failure("invalid_capacity_sample"));
            },
        };
        if free < self.thresholds.soft_bytes {
            let hard = free < self.thresholds.hard_bytes;
            let severity = if hard {
                PerformancePressureSeverity::High
            } else {
                PerformancePressureSeverity::Elevated
            };
            let (started_at_unix_ms, changed): (u64, bool) = match self.pressure {
                Some(pressure) => (
                    if pressure.started_at_unix_ms <= now_unix_ms {
                        pressure.started_at_unix_ms
                    } else {
                        now_unix_ms
                    },
                    pressure.severity != severity,
                ),
                None => (now_unix_ms, true),
            };
            let record = CapacityPressureRecord {
                severity,
                started_at_unix_ms,
                last_observed_at_unix_ms: now_unix_ms,
                available_bytes: free,
                thresholds: self.thresholds,
            };
            if changed {
                return Ok(
                    CapacityAction::Append {
                        severity: if hard {
                            EventSeverity::Error
                        } else {
                            EventSeverity::Warning
                        },
                        event: CapacityEvent::PressureStarted {
                            observed_at_unix_ms: now_unix_ms,
                            pressure: record,
                        },
                    },
                );
            }
            self.pressure = Some(record);
            return Ok(CapacityAction::Done);
        }
        match self.pressure {
            None => Ok(CapacityAction::Done),
            Some(record) => {
                self.pressure = None;
                Ok(
                    CapacityAction::Append {
                        severity: EventSeverity::Info,
                        event: CapacityEvent::PressureEnded {
                            observed_at_unix_ms: now_unix_ms,
                            pressure: CapacityPressureRecord {
                                severity: record.severity,
                                started_at_unix_ms: if record.started_at_unix_ms <= now_unix_ms {
                                    record.started_at_unix_ms
                                } else {
                                    now_unix_ms
                                },
                                last_observed_at_unix_ms: now_unix_ms,
                                available_bytes: record.available_bytes,
                                thresholds: record.thresholds,
                            },
                        },
                    },
                )
            },
        }
    }
}

/// New work begins only if the decision allows it. There is no decision where
/// the room is not watched, and an error where none could be made; `allowed`
/// says whether the decision's outcome allows new work. A refusal carries the
/// decision.
pub fn admit_capacity(
    decision: Option<RuntimeHostResult<CapacityDecision>>,
    allowed: bool,
) -> (result: Result<CapacityDecision, (RuntimeHostError, Option<CapacityDecision>)>)
    ensures
        result == match decision {
            None => Err::<CapacityDecision, _>(
                (capacity_error("capacity_owner_missing"), None::<CapacityDecision>),
            ),
            Some(Err(error)) => Err((error, None)),
            Some(Ok(decision)) => if allowed {
                Ok(decision)
            } else {
                Err(
                    (
                        request_error(
                            "capacity_admission_refused",
                            "admit_new_business",
                            RuntimeErrorCode::InvalidRequest,
                        ),
                        Some(decision),
                    ),
                )
            },
        },
{
    match decision {
        None => Err((failure("capacity_owner_missing"), None)),
        Some(Err(error)) => Err((error, None)),
        Some(Ok(decision)) => {
            if allowed {
                return Ok(decision);
            }
            Err(
                (
                    RuntimeHostError::request(
                        "capacity_admission_refused",
                        "admit_new_business",
                        RuntimeErrorCode::InvalidRequest,
                    ),
                    Some(decision),
                ),
            )
        },
    }
}

/// A shortage that was recorded is recorded again only when its severity
/// changes: with the same room nothing more is wanted.
pub proof fn law_shortage_is_recorded_once(
    monitor: CapacityMonitor,
    volumes: Seq<CapacityVolumeSample>,
    now_unix_ms: u64,
    later_unix_ms: u64,
)
    requires
        least_free(volumes) is Some,
        least_free(volumes)->0 < monitor.thresholds.soft_bytes,
    ensures
        ({
            let (before, wanted) = monitor.pressure_step(volumes, now_unix_ms);
            let after = match wanted->Ok_0 {
                CapacityAction::Append { event, .. } => before.next_step(
                    event,
                    Ok(()),
                    volumes,
                    now_unix_ms,
                ).0,
                CapacityAction::Done => before,
            };
            after.pressure_step(volumes, later_unix_ms).1 == Ok::<
                CapacityAction,
                RuntimeHostError,
            >(CapacityAction::Done)
        }),
{
}

/// A shortage that could not be recorded is wanted again with the next sample.
pub proof fn law_unrecorded_shortage_is_wanted_again(
    monitor: CapacityMonitor,
    volumes: Seq<CapacityVolumeSample>,
    now_unix_ms: u64,
    event: CapacityEvent,
    error: RuntimeHostError,
)
    requires
        event is PressureStarted,
        monitor.pressure_step(volumes, now_unix_ms).1 matches Ok(
            CapacityAction::Append { event: wanted, .. },
        ) && wanted == event,
    ensures
        monitor.pressure_step(volumes, now_unix_ms).0.next_step(
            event,
            Err(error),
            volumes,
            now_unix_ms,
        ).0 == monitor,
{
}

/// Less room is never less pressure: below the hard limit it is hard, below the
/// soft limit soft, and from there on there is enough.
pub proof fn law_room_sets_the_state(free: u64, thresholds: CapacityThresholds)
    ensures
        state_for(free, thresholds) == CapacityState::HardPressure <==> free
            < thresholds.hard_bytes,
        state_for(free, thresholds) == CapacityState::Sufficient <==> free >= thresholds.hard_bytes
            && free >= thresholds.soft_bytes,
        state_for(free, thresholds) != CapacityState::Unknown,
{
}

/// What is recorded of a volume is what was found: its room and the pressure
/// that means, or the failure to find it and no room.
pub proof fn law_volume_is_recorded_as_found(
    sample: CapacityVolumeSample,
    volume: RawVolume,
    purposes: Seq<CapacityPurpose>,
    thresholds: CapacityThresholds,
    target: int,
)
    requires
        describes(sample, volume, purposes, thresholds),
    ensures
        sample.available_bytes is Some <==> volume.available_bytes is Ok,
        volume.available_bytes matches Ok(free) ==> sample.available_bytes == Some(free) && (
        sample.state == CapacityState::HardPressure <==> free < thresholds.hard_bytes),
        sample.state == CapacityState::Unknown <==> volume.available_bytes is Err,
        sample.cause is Some <==> volume.available_bytes is Err,
        sample.purposes@.len() == volume.targets@.len(),
        0 <= target < volume.targets@.len() ==> sample.purposes@[target]
            == purposes[volume.targets@[target] as int],
{
}

/// The least room is that of a volume, and no volume has less; there is none
/// only where no volume's room is known.
pub proof fn law_least_room_is_a_volumes(volumes: Seq<CapacityVolumeSample>)
    ensures
        match least_free(volumes) {
            Some(least) => {
                &&& exists|i: int|
                    0 <= i < volumes.len() && (#[trigger] volumes[i]).available_bytes == Some(least)
                &&& forall|i: int|
                    0 <= i < volumes.len() ==> ((#[trigger] volumes[i]).available_bytes matches Some(
                        free,
                    ) ==> free >= least)
            },
            None => forall|i: int|
                0 <= i < volumes.len() ==> (#[trigger] volumes[i]).available_bytes is None,
        },
    decreases volumes.len(),
{
    if volumes.len() > 0 {
        let rest = volumes.drop_last();
        let last = volumes.len() - 1;
        law_least_room_is_a_volumes(rest);
        assert forall|i: int| 0 <= i < last implies rest[i] == #[trigger] volumes[i] by {}
        if least_free(rest) is Some {
            let i = choose|i: int|
                0 <= i < rest.len() && (#[trigger] rest[i]).available_bytes == least_free(rest);
            assert(volumes[i].available_bytes == least_free(rest));
        }
        assert(volumes[last].available_bytes == volumes.last().available_bytes);
    }
}

/// A sample that misses the room of a volume counts one more failure; the first
/// of a row is told as a warning, the third as an error, and no other. It
/// changes nothing of a shortage.
pub proof fn law_missing_room_is_told_twice(
    monitor: CapacityMonitor,
    volumes: Seq<CapacityVolumeSample>,
    now_unix_ms: u64,
)
    requires
        exists|i: int|
            0 <= i < volumes.len() && (#[trigger] volumes[i]).state == CapacityState::Unknown,
        monitor.consecutive_failures < u16::MAX,
    ensures
        ({
            let (after, step) = monitor.first_step(volumes, now_unix_ms);
            let count = monitor.consecutive_failures + 1;
            &&& after.consecutive_failures == count
            &&& after.pressure == monitor.pressure
            &&& step is Ok
            &&& if count == 1 || count == 3 {
                step->Ok_0 matches CapacityAction::Append { severity, event } && severity
                    == if count == 1 {
                    EventSeverity::Warning
                } else {
                    EventSeverity::Error
                } && (event matches CapacityEvent::MonitorDegraded {
                    observed_at_unix_ms,
                    consecutive_failures,
                } && observed_at_unix_ms == now_unix_ms && consecutive_failures == count)
            } else {
                step->Ok_0 is Done
            }
        }),
{
}

/// A complete sample after failures first tells of the recovery; once that is
/// recorded the failures are forgotten.
pub proof fn law_recovery_is_recorded_before_it_counts(
    monitor: CapacityMonitor,
    volumes: Seq<CapacityVolumeSample>,
    now_unix_ms: u64,
    event: CapacityEvent,
    error: RuntimeHostError,
)
    requires
        forall|i: int|
            0 <= i < volumes.len() ==> (#[trigger] volumes[i]).state != CapacityState::Unknown,
        monitor.consecutive_failures > 0,
        event is MonitorRecovered,
    ensures
        ({
            let (after, step) = monitor.first_step(volumes, now_unix_ms);
            &&& after == monitor
            &&& step matches Ok(CapacityAction::Append { severity, event }) && severity
                == EventSeverity::Info && event is MonitorRecovered
            &&& monitor.next_step(event, Err(error), volumes, now_unix_ms).0 == monitor
            &&& monitor.next_step(event, Ok(()), volumes, now_unix_ms).0.consecutive_failures == 0
        }),
{
}

/// Where the least room is short of the soft limit, a shortage begins, as an
/// error where it is short of the hard limit too; it is wanted until it is
/// recorded, and then goes on from when it began. With enough room it is over.
pub proof fn law_shortage_follows_the_least_room(
    monitor: CapacityMonitor,
    volumes: Seq<CapacityVolumeSample>,
    now_unix_ms: u64,
    free: u64,
)
    requires
        least_free(volumes) == Some(free),
    ensures
        ({
            let (after, step) = monitor.pressure_step(volumes, now_unix_ms);
            let hard = free < monitor.thresholds.hard_bytes;
            let severity = if hard {
                PerformancePressureSeverity::High
            } else {
                PerformancePressureSeverity::Elevated
            };
            &&& step is Ok
            &&& free >= monitor.thresholds.soft_bytes ==> after.pressure is None && (
            monitor.pressure is None <==> step->Ok_0 is Done)
            &&& free < monitor.thresholds.soft_bytes && (monitor.pressure is None || (
            monitor.pressure->0).severity != severity) ==> {
                &&& after == monitor
                &&& step->Ok_0 matches CapacityAction::Append { severity: told, event } && (told
                    == EventSeverity::Error <==> hard) && (event
                    matches CapacityEvent::PressureStarted { observed_at_unix_ms, pressure }
                    && observed_at_unix_ms == now_unix_ms && pressure.severity == severity
                    && pressure.available_bytes == free && pressure.last_observed_at_unix_ms
                    == now_unix_ms && (monitor.pressure is None ==> pressure.started_at_unix_ms
                    == now_unix_ms))
            }
            &&& free < monitor.thresholds.soft_bytes && (monitor.pressure matches Some(known)
                && known.severity == severity) ==> {
                &&& step->Ok_0 is Done
                &&& after.pressure matches Some(record) && record.available_bytes == free
                    && record.last_observed_at_unix_ms == now_unix_ms && record.severity == severity
                    && record.started_at_unix_ms <= (monitor.pressure->0).started_at_unix_ms
                    && record.started_at_unix_ms <= now_unix_ms
            }
        }),
{
}

} // verus!
