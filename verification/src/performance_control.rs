//! Contention-driven Runtime control with bounded escalation and staged recovery.

use vstd::prelude::*;
use vstd::string::StringExecFns;

use crate::error::{fatal_error, RuntimeErrorCode, RuntimeHostError, RuntimeHostResult};
use crate::ordered_map::{lemma_entry, OrderedKey, OrderedMap};
use crate::period::{of_millis, Period};
use crate::text::{lemma_text_order, optional_text, same_text, text_less};

verus! {

pub const BASIS_POINTS_MAX: u16 = 10_000;

/// How far the runtime steps back for the rest of the host.
#[derive(Debug, Clone, Copy, PartialEq, Eq, Structural)]
pub enum PerformanceControlLevel {
    Normal,
    DispatchPaused,
    Throttled,
    YieldRequested,
    QosReduced,
    Suspended,
    ShutdownRequested,
}

impl PerformanceControlLevel {
    pub open spec fn spec_rank(self) -> int {
        match self {
            PerformanceControlLevel::Normal => 0,
            PerformanceControlLevel::DispatchPaused => 1,
            PerformanceControlLevel::Throttled => 2,
            PerformanceControlLevel::YieldRequested => 3,
            PerformanceControlLevel::QosReduced => 4,
            PerformanceControlLevel::Suspended => 5,
            PerformanceControlLevel::ShutdownRequested => 6,
        }
    }

    pub fn rank(self) -> (rank: u8)
        ensures
            rank == self.spec_rank(),
    {
        match self {
            PerformanceControlLevel::Normal => 0,
            PerformanceControlLevel::DispatchPaused => 1,
            PerformanceControlLevel::Throttled => 2,
            PerformanceControlLevel::YieldRequested => 3,
            PerformanceControlLevel::QosReduced => 4,
            PerformanceControlLevel::Suspended => 5,
            PerformanceControlLevel::ShutdownRequested => 6,
        }
    }
}

/// The higher of two levels.
pub open spec fn higher_level(
    left: PerformanceControlLevel,
    right: PerformanceControlLevel,
) -> PerformanceControlLevel {
    if left.spec_rank() >= right.spec_rank() {
        left
    } else {
        right
    }
}

fn higher(left: PerformanceControlLevel, right: PerformanceControlLevel) -> (level:
    PerformanceControlLevel)
    ensures
        level == higher_level(left, right),
{
    if left.rank() >= right.rank() {
        left
    } else {
        right
    }
}

/// The level one step up, at most the highest.
pub open spec fn level_above(level: PerformanceControlLevel) -> PerformanceControlLevel {
    match level {
        PerformanceControlLevel::Normal => PerformanceControlLevel::DispatchPaused,
        PerformanceControlLevel::DispatchPaused => PerformanceControlLevel::Throttled,
        PerformanceControlLevel::Throttled => PerformanceControlLevel::YieldRequested,
        PerformanceControlLevel::YieldRequested => PerformanceControlLevel::QosReduced,
        PerformanceControlLevel::QosReduced => PerformanceControlLevel::Suspended,
        _ => PerformanceControlLevel::ShutdownRequested,
    }
}

/// The level one step down, at least the lowest.
pub open spec fn level_below(level: PerformanceControlLevel) -> PerformanceControlLevel {
    match level {
        PerformanceControlLevel::Throttled => PerformanceControlLevel::DispatchPaused,
        PerformanceControlLevel::YieldRequested => PerformanceControlLevel::Throttled,
        PerformanceControlLevel::QosReduced => PerformanceControlLevel::YieldRequested,
        PerformanceControlLevel::Suspended => PerformanceControlLevel::QosReduced,
        PerformanceControlLevel::ShutdownRequested => PerformanceControlLevel::Suspended,
        _ => PerformanceControlLevel::Normal,
    }
}

fn next_level(level: PerformanceControlLevel) -> (next: PerformanceControlLevel)
    ensures
        next == level_above(level),
{
    match level {
        PerformanceControlLevel::Normal => PerformanceControlLevel::DispatchPaused,
        PerformanceControlLevel::DispatchPaused => PerformanceControlLevel::Throttled,
        PerformanceControlLevel::Throttled => PerformanceControlLevel::YieldRequested,
        PerformanceControlLevel::YieldRequested => PerformanceControlLevel::QosReduced,
        PerformanceControlLevel::QosReduced => PerformanceControlLevel::Suspended,
        _ => PerformanceControlLevel::ShutdownRequested,
    }
}

fn previous_level(level: PerformanceControlLevel) -> (previous: PerformanceControlLevel)
    ensures
        previous == level_below(level),
{
    match level {
        PerformanceControlLevel::Throttled => PerformanceControlLevel::DispatchPaused,
        PerformanceControlLevel::YieldRequested => PerformanceControlLevel::Throttled,
        PerformanceControlLevel::QosReduced => PerformanceControlLevel::YieldRequested,
        PerformanceControlLevel::Suspended => PerformanceControlLevel::QosReduced,
        PerformanceControlLevel::ShutdownRequested => PerformanceControlLevel::Suspended,
        _ => PerformanceControlLevel::Normal,
    }
}

/// The escalation and recovery rules.
#[derive(Debug, Clone, Copy, PartialEq, Eq, Structural)]
pub struct PerformanceControlConfig {
    pub escalation_samples: u16,
    pub recovery_samples: u16,
    pub transition_cooldown: Period,
    pub clock_jump_threshold: Period,
    pub normal_heavy_dispatch_limit: u16,
    pub pressured_heavy_dispatch_limit: u16,
}

impl Default for PerformanceControlConfig {
    fn default() -> (config: Self)
        ensures
            config == (PerformanceControlConfig {
                escalation_samples: 2,
                recovery_samples: 3,
                transition_cooldown: of_millis(4_000),
                clock_jump_threshold: of_millis(30_000),
                normal_heavy_dispatch_limit: 2,
                pressured_heavy_dispatch_limit: 1,
            }),
    {
        PerformanceControlConfig {
            escalation_samples: 2,
            recovery_samples: 3,
            transition_cooldown: Period::from_millis(4_000),
            clock_jump_threshold: Period::from_millis(30_000),
            normal_heavy_dispatch_limit: 2,
            pressured_heavy_dispatch_limit: 1,
        }
    }
}

/// A fatal error of the control.
pub open spec fn control_error(code: &'static str, operation: &'static str) -> RuntimeHostError {
    fatal_error(code, operation, RuntimeErrorCode::RuntimeFatal)
}

fn control_fatal(code: &'static str, operation: &'static str) -> (error: RuntimeHostError)
    ensures
        error == control_error(code, operation),
{
    RuntimeHostError::fatal(code, operation, RuntimeErrorCode::RuntimeFatal)
}

/// The error of a period that cannot be told in milliseconds.
pub open spec fn duration_error() -> RuntimeHostError {
    control_error(
        "performance_control_duration_overflow",
        "convert_performance_control_duration",
    )
}

fn duration_overflow() -> (error: RuntimeHostError)
    ensures
        error == duration_error(),
{
    control_fatal("performance_control_duration_overflow", "convert_performance_control_duration")
}

impl PerformanceControlConfig {
    pub fn with_hysteresis(
        self,
        escalation_samples: u16,
        recovery_samples: u16,
        transition_cooldown: Period,
    ) -> (config: Self)
        ensures
            config == (PerformanceControlConfig {
                escalation_samples,
                recovery_samples,
                transition_cooldown,
                ..self
            }),
    {
        let mut config = self;
        config.escalation_samples = escalation_samples;
        config.recovery_samples = recovery_samples;
        config.transition_cooldown = transition_cooldown;
        config
    }

    pub fn with_clock_jump_threshold(self, clock_jump_threshold: Period) -> (config: Self)
        ensures
            config == (PerformanceControlConfig { clock_jump_threshold, ..self }),
    {
        let mut config = self;
        config.clock_jump_threshold = clock_jump_threshold;
        config
    }

    pub fn with_heavy_dispatch_limits(self, normal: u16, pressured: u16) -> (config: Self)
        ensures
            config == (PerformanceControlConfig {
                normal_heavy_dispatch_limit: normal,
                pressured_heavy_dispatch_limit: pressured,
                ..self
            }),
    {
        let mut config = self;
        config.normal_heavy_dispatch_limit = normal;
        config.pressured_heavy_dispatch_limit = pressured;
        config
    }

    pub open spec fn valid(self) -> bool {
        &&& self.escalation_samples > 0
        &&& self.recovery_samples > 0
        &&& self.transition_cooldown != of_millis(0)
        &&& !self.clock_jump_threshold.shorter(self.transition_cooldown)
        &&& 0 < self.pressured_heavy_dispatch_limit <= self.normal_heavy_dispatch_limit
    }

    pub fn validate(&self) -> (result: RuntimeHostResult<()>)
        ensures
            self.valid() ==> result is Ok,
            !self.valid() ==> result == Err::<(), _>(
                control_error(
                    "performance_control_config_invalid",
                    "validate_performance_control_config",
                ),
            ),
    {
        if self.escalation_samples == 0 || self.recovery_samples == 0
            || self.transition_cooldown.is_zero() || self.clock_jump_threshold.is_shorter(
            &self.transition_cooldown,
        ) || self.normal_heavy_dispatch_limit == 0 || self.pressured_heavy_dispatch_limit == 0
            || self.pressured_heavy_dispatch_limit > self.normal_heavy_dispatch_limit {
            return Err(
                control_fatal(
                    "performance_control_config_invalid",
                    "validate_performance_control_config",
                ),
            );
        }
        Ok(())
    }
}

/// What the host looked like at one instant.
#[derive(Debug, Clone, Copy, PartialEq, Eq, Structural)]
pub struct PerformanceControlObservation {
    pub observed_at_unix_ms: u64,
    pub host_responsiveness_basis_points: Option<u16>,
    pub third_party_pressure_basis_points: Option<u16>,
    pub foreground_fullscreen: bool,
}

impl PerformanceControlObservation {
    pub open spec fn valid(self) -> bool {
        &&& self.observed_at_unix_ms > 0
        &&& self.host_responsiveness_basis_points matches Some(value) ==> value <= BASIS_POINTS_MAX
        &&& self.third_party_pressure_basis_points matches Some(value) ==> value <= BASIS_POINTS_MAX
    }

    /// Something else runs in full screen and contends with a host whose
    /// responsiveness is known.
    pub open spec fn fullscreen_contention(self) -> bool {
        &&& self.foreground_fullscreen
        &&& self.third_party_pressure_basis_points matches Some(value) && value > 0
        &&& self.host_responsiveness_basis_points is Some
    }

    pub fn validate(&self) -> (result: RuntimeHostResult<()>)
        ensures
            self.valid() ==> result is Ok,
            !self.valid() ==> result == Err::<(), _>(
                control_error(
                    "performance_control_observation_invalid",
                    "observe_performance_contention",
                ),
            ),
    {
        let responsive = match self.host_responsiveness_basis_points {
            Some(value) => value <= BASIS_POINTS_MAX,
            None => true,
        };
        let pressured = match self.third_party_pressure_basis_points {
            Some(value) => value <= BASIS_POINTS_MAX,
            None => true,
        };
        if self.observed_at_unix_ms == 0 || !responsive || !pressured {
            return Err(
                control_fatal(
                    "performance_control_observation_invalid",
                    "observe_performance_contention",
                ),
            );
        }
        Ok(())
    }

    fn contends_in_fullscreen(&self) -> (contends: bool)
        ensures
            contends == self.fullscreen_contention(),
    {
        let pressured = match self.third_party_pressure_basis_points {
            Some(value) => value > 0,
            None => false,
        };
        self.foreground_fullscreen && pressured && self.host_responsiveness_basis_points.is_some()
    }
}

/// How much of a host a task takes.
#[derive(Debug, Clone, Copy, PartialEq, Eq, Structural)]
pub enum LoadProfile {
    Heavy,
    Light,
    Weighted { cpu_milli: u16, gpu_milli: u16, io_milli: u16 },
}

pub open spec fn heavy(profile: LoadProfile) -> bool {
    match profile {
        LoadProfile::Heavy => true,
        LoadProfile::Light => false,
        LoadProfile::Weighted { cpu_milli, gpu_milli, io_milli } => cpu_milli + gpu_milli + io_milli
            >= 1_500,
    }
}

pub fn is_heavy(profile: &LoadProfile) -> (result: bool)
    ensures
        result == heavy(*profile),
{
    match profile {
        LoadProfile::Heavy => true,
        LoadProfile::Light => false,
        LoadProfile::Weighted { cpu_milli, gpu_milli, io_milli } => {
            (*cpu_milli as u32) + (*gpu_milli as u32) + (*io_milli as u32) >= 1_500
        },
    }
}

#[derive(Debug, Clone)]
pub struct PerformanceControlWorkload {
    pub instance_id: String,
    pub load_profile: LoadProfile,
}

#[derive(Debug, Clone)]
pub struct PerformanceControlDirective {
    pub instance_id: String,
    pub level: PerformanceControlLevel,
    pub throttle_delay_ms: u64,
    pub yield_requested: bool,
    pub qos_reduced: bool,
    pub suspend_requested: bool,
    pub shutdown_requested: bool,
}

#[derive(Debug, Clone, Copy, PartialEq, Eq, Structural)]
pub enum PerformanceControlReason {
    ClockJump,
    Recovery,
    FullscreenContention,
    ThirdPartyContention,
    ResponsivenessPressure,
    DeadlineConflict,
}

/// What becomes of a deadline that the control stands in the way of.
#[derive(Debug, Clone, Copy, PartialEq, Eq, Structural)]
pub enum PerformanceDeadlineDisposition {
    InformationWarning,
    CapacityFailure,
}

/// A change of the control, or a conflict with it.
#[derive(Debug, Clone)]
pub struct PerformanceControlEventData {
    pub observed_at_unix_ms: u64,
    pub instance_id: Option<String>,
    pub previous_level: PerformanceControlLevel,
    pub level: PerformanceControlLevel,
    pub reason: PerformanceControlReason,
    pub host_responsiveness_basis_points: Option<u16>,
    pub third_party_pressure_basis_points: Option<u16>,
    pub recovery: bool,
    pub deadline_disposition: Option<PerformanceDeadlineDisposition>,
}

/// The value of a control event.
pub struct ControlEventView {
    pub observed_at_unix_ms: u64,
    pub instance_id: Option<Seq<char>>,
    pub previous_level: PerformanceControlLevel,
    pub level: PerformanceControlLevel,
    pub reason: PerformanceControlReason,
    pub host_responsiveness_basis_points: Option<u16>,
    pub third_party_pressure_basis_points: Option<u16>,
    pub recovery: bool,
    pub deadline_disposition: Option<PerformanceDeadlineDisposition>,
}

impl View for PerformanceControlEventData {
    type V = ControlEventView;

    open spec fn view(&self) -> ControlEventView {
        ControlEventView {
            observed_at_unix_ms: self.observed_at_unix_ms,
            instance_id: optional_text(self.instance_id),
            previous_level: self.previous_level,
            level: self.level,
            reason: self.reason,
            host_responsiveness_basis_points: self.host_responsiveness_basis_points,
            third_party_pressure_basis_points: self.third_party_pressure_basis_points,
            recovery: self.recovery,
            deadline_disposition: self.deadline_disposition,
        }
    }
}

pub open spec fn control_events(events: Seq<PerformanceControlEventData>) -> Seq<
    ControlEventView,
> {
    events.map_values(|event: PerformanceControlEventData| event@)
}

/// The event of a change that an observation brought about.
pub open spec fn control_event(
    instance_id: Option<Seq<char>>,
    previous_level: PerformanceControlLevel,
    level: PerformanceControlLevel,
    reason: PerformanceControlReason,
    recovery: bool,
    deadline_disposition: Option<PerformanceDeadlineDisposition>,
    observation: PerformanceControlObservation,
) -> ControlEventView {
    ControlEventView {
        observed_at_unix_ms: observation.observed_at_unix_ms,
        instance_id,
        previous_level,
        level,
        reason,
        host_responsiveness_basis_points: observation.host_responsiveness_basis_points,
        third_party_pressure_basis_points: observation.third_party_pressure_basis_points,
        recovery,
        deadline_disposition,
    }
}

fn event(
    instance_id: Option<String>,
    previous_level: PerformanceControlLevel,
    level: PerformanceControlLevel,
    reason: PerformanceControlReason,
    recovery: bool,
    deadline_disposition: Option<PerformanceDeadlineDisposition>,
    observation: &PerformanceControlObservation,
) -> (event: PerformanceControlEventData)
    ensures
        event@ == control_event(
            optional_text(instance_id),
            previous_level,
            level,
            reason,
            recovery,
            deadline_disposition,
            *observation,
        ),
{
    PerformanceControlEventData {
        observed_at_unix_ms: observation.observed_at_unix_ms,
        instance_id,
        previous_level,
        level,
        reason,
        host_responsiveness_basis_points: observation.host_responsiveness_basis_points,
        third_party_pressure_basis_points: observation.third_party_pressure_basis_points,
        recovery,
        deadline_disposition,
    }
}

/// The level that a responsiveness asks for.
pub open spec fn level_for_responsiveness(value: u16) -> PerformanceControlLevel {
    if 8_500 <= value <= 10_000 {
        PerformanceControlLevel::Normal
    } else if 7_500 <= value < 8_500 {
        PerformanceControlLevel::DispatchPaused
    } else if 6_500 <= value < 7_500 {
        PerformanceControlLevel::Throttled
    } else if 5_500 <= value < 6_500 {
        PerformanceControlLevel::YieldRequested
    } else if 4_500 <= value < 5_500 {
        PerformanceControlLevel::QosReduced
    } else if 3_000 <= value < 4_500 {
        PerformanceControlLevel::Suspended
    } else {
        PerformanceControlLevel::ShutdownRequested
    }
}

/// The level that a pressure from other programs asks for.
pub open spec fn level_for_pressure(value: u16) -> PerformanceControlLevel {
    if value <= 1_000 {
        PerformanceControlLevel::Normal
    } else if value <= 2_500 {
        PerformanceControlLevel::DispatchPaused
    } else if value <= 4_000 {
        PerformanceControlLevel::Throttled
    } else if value <= 5_500 {
        PerformanceControlLevel::YieldRequested
    } else if value <= 7_000 {
        PerformanceControlLevel::QosReduced
    } else if value <= 8_500 {
        PerformanceControlLevel::Suspended
    } else {
        PerformanceControlLevel::ShutdownRequested
    }
}

fn responsiveness_level(value: u16) -> (level: PerformanceControlLevel)
    ensures
        level == level_for_responsiveness(value),
{
    if value > 10_000 || value < 3_000 {
        PerformanceControlLevel::ShutdownRequested
    } else if value >= 8_500 {
        PerformanceControlLevel::Normal
    } else if value >= 7_500 {
        PerformanceControlLevel::DispatchPaused
    } else if value >= 6_500 {
        PerformanceControlLevel::Throttled
    } else if value >= 5_500 {
        PerformanceControlLevel::YieldRequested
    } else if value >= 4_500 {
        PerformanceControlLevel::QosReduced
    } else {
        PerformanceControlLevel::Suspended
    }
}

fn third_party_level(value: u16) -> (level: PerformanceControlLevel)
    ensures
        level == level_for_pressure(value),
{
    if value <= 1_000 {
        PerformanceControlLevel::Normal
    } else if value <= 2_500 {
        PerformanceControlLevel::DispatchPaused
    } else if value <= 4_000 {
        PerformanceControlLevel::Throttled
    } else if value <= 5_500 {
        PerformanceControlLevel::YieldRequested
    } else if value <= 7_000 {
        PerformanceControlLevel::QosReduced
    } else if value <= 8_500 {
        PerformanceControlLevel::Suspended
    } else {
        PerformanceControlLevel::ShutdownRequested
    }
}

/// The level that an observation asks for: the higher of the two, one more
/// under full screen contention; none when nothing was measured.
pub open spec fn asked_level(observation: PerformanceControlObservation) -> Option<
    PerformanceControlLevel,
> {
    let base = match (
        observation.host_responsiveness_basis_points,
        observation.third_party_pressure_basis_points,
    ) {
        (Some(left), Some(right)) => Some(
            higher_level(level_for_responsiveness(left), level_for_pressure(right)),
        ),
        (Some(value), None) => Some(level_for_responsiveness(value)),
        (None, Some(value)) => Some(level_for_pressure(value)),
        (None, None) => None,
    };
    match base {
        Some(level) => Some(
            if observation.fullscreen_contention() {
                level_above(level)
            } else {
                level
            },
        ),
        None => None,
    }
}

pub fn target_level(observation: &PerformanceControlObservation) -> (target: Option<
    PerformanceControlLevel,
>)
    ensures
        target == asked_level(*observation),
{
    let base = match (
        observation.host_responsiveness_basis_points,
        observation.third_party_pressure_basis_points,
    ) {
        (Some(left), Some(right)) => higher(responsiveness_level(left), third_party_level(right)),
        (Some(value), None) => responsiveness_level(value),
        (None, Some(value)) => third_party_level(value),
        (None, None) => {
            return None;
        },
    };
    if observation.contends_in_fullscreen() {
        Some(next_level(base))
    } else {
        Some(base)
    }
}

/// Why an observation escalates the control.
pub open spec fn escalation_reason(observation: PerformanceControlObservation) ->
    PerformanceControlReason {
    let response = match observation.host_responsiveness_basis_points {
        Some(value) => level_for_responsiveness(value),
        None => PerformanceControlLevel::Normal,
    };
    let pressure = match observation.third_party_pressure_basis_points {
        Some(value) => level_for_pressure(value),
        None => PerformanceControlLevel::Normal,
    };
    if observation.fullscreen_contention() {
        PerformanceControlReason::FullscreenContention
    } else if pressure.spec_rank() > response.spec_rank() {
        PerformanceControlReason::ThirdPartyContention
    } else {
        PerformanceControlReason::ResponsivenessPressure
    }
}

fn control_reason(observation: &PerformanceControlObservation) -> (reason: PerformanceControlReason)
    ensures
        reason == escalation_reason(*observation),
{
    if observation.contends_in_fullscreen() {
        return PerformanceControlReason::FullscreenContention;
    }
    let response = match observation.host_responsiveness_basis_points {
        Some(value) => responsiveness_level(value),
        None => PerformanceControlLevel::Normal,
    };
    let pressure = match observation.third_party_pressure_basis_points {
        Some(value) => third_party_level(value),
        None => PerformanceControlLevel::Normal,
    };
    if pressure.rank() > response.rank() {
        PerformanceControlReason::ThirdPartyContention
    } else {
        PerformanceControlReason::ResponsivenessPressure
    }
}

/// The share of a host's budget that a level leaves.
pub open spec fn budget_factor_milli(level: PerformanceControlLevel) -> int {
    match level {
        PerformanceControlLevel::Normal => 1_000,
        PerformanceControlLevel::DispatchPaused => 1_000,
        PerformanceControlLevel::Throttled => 750,
        PerformanceControlLevel::YieldRequested => 600,
        PerformanceControlLevel::QosReduced => 500,
        PerformanceControlLevel::Suspended => 250,
        PerformanceControlLevel::ShutdownRequested => 0,
    }
}

fn control_budget_factor_milli(level: PerformanceControlLevel) -> (factor: u16)
    ensures
        factor == budget_factor_milli(level),
        factor <= 1_000,
{
    match level {
        PerformanceControlLevel::Normal => 1_000,
        PerformanceControlLevel::DispatchPaused => 1_000,
        PerformanceControlLevel::Throttled => 750,
        PerformanceControlLevel::YieldRequested => 600,
        PerformanceControlLevel::QosReduced => 500,
        PerformanceControlLevel::Suspended => 250,
        PerformanceControlLevel::ShutdownRequested => 0,
    }
}

/// A budget scaled by a factor in thousandths, rounded down.
pub open spec fn scaled(value: u16, factor_milli: int) -> int {
    (value as int) * factor_milli / 1_000
}

/// Scales a budget; a result that does not fit is refused.
pub fn scaled_budget(value: u16, factor_milli: u16) -> (result: RuntimeHostResult<u16>)
    ensures
        scaled(value, factor_milli as int) <= u16::MAX ==> result == Ok::<_, RuntimeHostError>(
            scaled(value, factor_milli as int) as u16,
        ),
        scaled(value, factor_milli as int) > u16::MAX ==> result == Err::<u16, _>(
            control_error("performance_budget_overflow", "apply_performance_control_resources"),
        ),
        factor_milli <= 1_000 ==> scaled(value, factor_milli as int) <= value,
{
    assert((value as int) * (factor_milli as int) <= 65_535 * 65_535) by (nonlinear_arith)
        requires
            0 <= value <= 65_535,
            0 <= factor_milli <= 65_535,
    ;
    assert((value as int) * (factor_milli as int) >= 0) by (nonlinear_arith)
        requires
            0 <= value,
            0 <= factor_milli,
    ;
    let result: u32 = (value as u32) * (factor_milli as u32) / 1_000;
    proof {
        if factor_milli <= 1_000 {
            assert((value as int) * (factor_milli as int) <= (value as int) * 1_000)
                by (nonlinear_arith)
                requires
                    0 <= value,
                    factor_milli <= 1_000,
            ;
        }
    }
    if result > u16::MAX as u32 {
        return Err(
            control_fatal("performance_budget_overflow", "apply_performance_control_resources"),
        );
    }
    Ok(result as u16)
}

/// What a host has to offer.
#[derive(Debug, Clone)]
pub struct HostResourceSnapshot {
    pub host_id: String,
    pub cpu_available_milli: u16,
    pub gpu_available_milli: u16,
    pub io_available_milli: u16,
    pub host_responsiveness_basis_points: u16,
    pub third_party_pressure_basis_points: u16,
    pub heavy_dispatch_limit: u16,
    pub active_heavy_dispatches: u16,
}

/// The answer to a dispatch.
#[derive(Debug, Clone)]
pub enum PerformanceDispatchGate {
    Allowed,
    Deferred {
        reason: &'static str,
        deadline_disposition: Option<PerformanceDeadlineDisposition>,
        event: Option<PerformanceControlEventData>,
    },
}

/// The levels of the instances.
pub type InstanceLevels = Map<Seq<char>, PerformanceControlLevel>;

/// The controller: the host's level, a level for every working instance, and
/// the evidence gathered for the next transition.
#[derive(Debug)]
pub struct PerformanceBalanceController {
    pub config: PerformanceControlConfig,
    pub level: PerformanceControlLevel,
    pub instance_levels: OrderedMap<String, PerformanceControlLevel>,
    pub last_observed_at_unix_ms: Option<u64>,
    pub cooldown_until_unix_ms: u64,
    pub candidate_level: Option<PerformanceControlLevel>,
    pub candidate_samples: u16,
    pub last_observation: Option<PerformanceControlObservation>,
}

/// The value of a controller.
pub struct ControllerView {
    pub config: PerformanceControlConfig,
    pub level: PerformanceControlLevel,
    pub instance_levels: InstanceLevels,
    pub last_observed_at_unix_ms: Option<u64>,
    pub cooldown_until_unix_ms: u64,
    pub candidate_level: Option<PerformanceControlLevel>,
    pub candidate_samples: u16,
    pub last_observation: Option<PerformanceControlObservation>,
}

impl View for PerformanceBalanceController {
    type V = ControllerView;

    open spec fn view(&self) -> ControllerView {
        ControllerView {
            config: self.config,
            level: self.level,
            instance_levels: self.instance_levels@,
            last_observed_at_unix_ms: self.last_observed_at_unix_ms,
            cooldown_until_unix_ms: self.cooldown_until_unix_ms,
            candidate_level: self.candidate_level,
            candidate_samples: self.candidate_samples,
            last_observation: self.last_observation,
        }
    }
}

/// The instances of some workloads.
pub open spec fn workload_ids(workloads: Seq<PerformanceControlWorkload>) -> Seq<Seq<char>> {
    workloads.map_values(|workload: PerformanceControlWorkload| workload.instance_id@)
}

/// Every workload names an instance, and no two the same.
pub open spec fn workloads_valid(ids: Seq<Seq<char>>) -> bool {
    &&& forall|i: int| 0 <= i < ids.len() ==> (#[trigger] ids[i]).len() > 0
    &&& ids.no_duplicates()
}

/// A workload names an instance that no workload before it names.
pub open spec fn joins(ids: Seq<Seq<char>>, index: int) -> bool {
    ids[index].len() > 0 && !ids.take(index).contains(ids[index])
}

pub open spec fn is_first_invalid(ids: Seq<Seq<char>>, index: int) -> bool {
    &&& 0 <= index < ids.len()
    &&& !joins(ids, index)
    &&& forall|i: int| 0 <= i < index ==> #[trigger] joins(ids, i)
}

/// The position of the first workload that names no instance or one that was
/// named before.
pub open spec fn first_invalid(ids: Seq<Seq<char>>) -> int {
    choose|index: int| is_first_invalid(ids, index)
}

proof fn lemma_first_invalid(ids: Seq<Seq<char>>, index: int)
    requires
        0 <= index < ids.len(),
        workloads_valid(ids.take(index)),
        !joins(ids, index),
    ensures
        first_invalid(ids) == index,
{
    assert forall|i: int| 0 <= i < index implies #[trigger] joins(ids, i) by {
        let before = ids.take(index);
        assert(before[i] == ids[i]);
        if ids.take(i).contains(ids[i]) {
            let k = ids.take(i).index_of(ids[i]);
            assert(before[k] == before[i]);
        }
    }
    assert(is_first_invalid(ids, index));
    let chosen = first_invalid(ids);
    assert(is_first_invalid(ids, chosen));
    if chosen < index {
        assert(joins(ids, chosen));
    } else if index < chosen {
        assert(joins(ids, index));
    }
}

/// The levels once some instances have joined at the host's level.
pub open spec fn joined(
    levels: InstanceLevels,
    level: PerformanceControlLevel,
    ids: Seq<Seq<char>>,
) -> InstanceLevels {
    Map::new(
        |id: Seq<char>| levels.contains_key(id) || ids.contains(id),
        |id: Seq<char>|
            if levels.contains_key(id) {
                levels[id]
            } else {
                level
            },
    )
}

/// The levels of exactly the working instances: newcomers at the host's
/// level, all others as they were.
pub open spec fn synced(
    levels: InstanceLevels,
    level: PerformanceControlLevel,
    ids: Seq<Seq<char>>,
) -> InstanceLevels {
    Map::new(
        |id: Seq<char>| ids.contains(id),
        |id: Seq<char>|
            if levels.contains_key(id) {
                levels[id]
            } else {
                level
            },
    )
}

/// The first instance, in the order of the names, that stands above a level.
pub open spec fn is_first_above(
    levels: InstanceLevels,
    level: PerformanceControlLevel,
    id: Seq<char>,
) -> bool {
    &&& levels.contains_key(id) && levels[id].spec_rank() > level.spec_rank()
    &&& forall|other: Seq<char>| #[trigger]
        levels.contains_key(other) && levels[other].spec_rank() > level.spec_rank() ==> other == id
            || text_less(id, other)
}

pub open spec fn first_above(levels: InstanceLevels, level: PerformanceControlLevel) -> Option<
    Seq<char>,
> {
    if exists|id: Seq<char>| is_first_above(levels, level, id) {
        Some(choose|id: Seq<char>| is_first_above(levels, level, id))
    } else {
        None
    }
}

/// Some instance stands above a level.
pub open spec fn any_above(levels: InstanceLevels, level: PerformanceControlLevel) -> bool {
    exists|id: Seq<char>| #[trigger]
        levels.contains_key(id) && levels[id].spec_rank() > level.spec_rank()
}

/// The state after a step, and its events or its error.
pub type ControlStep = (ControllerView, Result<Seq<ControlEventView>, RuntimeHostError>);

impl ControllerView {
    /// No tracked instance stands below the host.
    pub open spec fn none_below(self) -> bool {
        forall|id: Seq<char>| #[trigger]
            self.instance_levels.contains_key(id) ==> self.instance_levels[id].spec_rank()
                >= self.level.spec_rank()
    }

    /// The evidence for a transition is dropped.
    pub open spec fn without_candidate(self) -> ControllerView {
        ControllerView { candidate_level: None, candidate_samples: 0, ..self }
    }

    /// The observation is the latest.
    pub open spec fn with_observation(self, observation: PerformanceControlObservation) ->
        ControllerView {
        ControllerView {
            last_observed_at_unix_ms: Some(observation.observed_at_unix_ms),
            last_observation: Some(observation),
            ..self
        }
    }

    /// The clock went back, or forward by more than the threshold.
    pub open spec fn clock_jumped(self, observation: PerformanceControlObservation) -> bool {
        self.last_observed_at_unix_ms matches Some(previous) && (observation.observed_at_unix_ms
            < previous || observation.observed_at_unix_ms - previous
            > self.config.clock_jump_threshold.millis)
    }

    /// When the next transition may come after one at the observation.
    pub open spec fn cooldown_after(self, observation: PerformanceControlObservation) -> int {
        observation.observed_at_unix_ms + self.config.transition_cooldown.millis
    }

    /// Why no time can be given for the next transition, if none can.
    pub open spec fn cooldown_error(
        self,
        observation: PerformanceControlObservation,
        operation: &'static str,
    ) -> Option<RuntimeHostError> {
        if self.config.transition_cooldown.millis > u64::MAX {
            Some(duration_error())
        } else if self.cooldown_after(observation) > u64::MAX {
            Some(control_error("performance_control_time_overflow", operation))
        } else {
            None
        }
    }

    /// A jump of the clock drops the evidence and keeps the levels.
    pub open spec fn after_jump(self, observation: PerformanceControlObservation) -> ControlStep {
        let reset = self.without_candidate();
        if self.cooldown_error(observation, "observe_performance_clock_jump") is Some {
            (
                reset,
                Err(self.cooldown_error(observation, "observe_performance_clock_jump")->0),
            )
        } else {
            (
                ControllerView {
                    cooldown_until_unix_ms: self.cooldown_after(observation) as u64,
                    ..reset.with_observation(observation)
                },
                Ok(
                    seq![
                        control_event(
                            None,
                            self.level,
                            self.level,
                            PerformanceControlReason::ClockJump,
                            false,
                            None,
                            observation,
                        ),
                    ],
                ),
            )
        }
    }

    /// The first instance above the host's level comes one level down.
    pub open spec fn after_instance_recovery(self, observation: PerformanceControlObservation) -> (
        ControllerView,
        Seq<ControlEventView>,
    ) {
        match first_above(self.instance_levels, self.level) {
            None => (self, Seq::empty()),
            Some(id) => {
                let previous = self.instance_levels[id];
                let level = higher_level(level_below(previous), self.level);
                (
                    ControllerView {
                        instance_levels: self.instance_levels.insert(id, level),
                        ..self
                    },
                    seq![
                        control_event(
                            Some(id),
                            previous,
                            level,
                            PerformanceControlReason::Recovery,
                            true,
                            None,
                            observation,
                        ),
                    ],
                )
            },
        }
    }

    /// One more sample for a transition; the count stops at its largest value.
    pub open spec fn one_more_sample(self) -> u16 {
        if self.candidate_samples == u16::MAX {
            u16::MAX
        } else {
            (self.candidate_samples + 1) as u16
        }
    }

    /// The host is at the level that is asked for. At the normal level the
    /// instances still above it recover, one at a time.
    pub open spec fn after_matching(
        self,
        target: PerformanceControlLevel,
        observation: PerformanceControlObservation,
    ) -> ControlStep {
        let calm = ControllerView { candidate_level: None, ..self };
        if target != PerformanceControlLevel::Normal || observation.observed_at_unix_ms
            < self.cooldown_until_unix_ms || !any_above(self.instance_levels, self.level) {
            (ControllerView { candidate_samples: 0, ..calm }, Ok(Seq::empty()))
        } else if self.one_more_sample() < self.config.recovery_samples {
            (ControllerView { candidate_samples: self.one_more_sample(), ..calm }, Ok(Seq::empty()))
        } else if self.cooldown_error(observation, "recover_performance_instance") is Some {
            (
                ControllerView { candidate_samples: 0, ..calm },
                Err(self.cooldown_error(observation, "recover_performance_instance")->0),
            )
        } else {
            let (state, events) = (ControllerView {
                candidate_samples: 0,
                cooldown_until_unix_ms: self.cooldown_after(observation) as u64,
                ..calm
            }).after_instance_recovery(observation);
            (state, Ok(events))
        }
    }

    /// One more sample that asks for a level.
    pub open spec fn with_candidate(self, target: PerformanceControlLevel) -> ControllerView {
        ControllerView {
            candidate_level: Some(target),
            candidate_samples: if self.candidate_level == Some(target) {
                self.one_more_sample()
            } else {
                1
            },
            ..self
        }
    }

    /// Enough samples ask for the level, and the cooldown is over.
    pub open spec fn transition_due(
        self,
        target: PerformanceControlLevel,
        observation: PerformanceControlObservation,
    ) -> bool {
        let required = if target.spec_rank() > self.level.spec_rank() {
            self.config.escalation_samples
        } else {
            self.config.recovery_samples
        };
        self.candidate_samples >= required && observation.observed_at_unix_ms
            >= self.cooldown_until_unix_ms
    }

    /// The host moves one level towards the one that is asked for. On the way
    /// up no instance stays below it; on the way down one instance recovers.
    pub open spec fn after_transition(
        self,
        target: PerformanceControlLevel,
        observation: PerformanceControlObservation,
    ) -> ControlStep {
        let reset = self.without_candidate();
        let recovery = target.spec_rank() < self.level.spec_rank();
        if self.cooldown_error(observation, "transition_performance_control") is Some {
            (
                reset,
                Err(self.cooldown_error(observation, "transition_performance_control")->0),
            )
        } else if recovery {
            let level = level_below(self.level);
            let (state, events) = (ControllerView {
                cooldown_until_unix_ms: self.cooldown_after(observation) as u64,
                level,
                ..reset
            }).after_instance_recovery(observation);
            (
                state,
                Ok(
                    seq![
                        control_event(
                            None,
                            self.level,
                            level,
                            PerformanceControlReason::Recovery,
                            true,
                            None,
                            observation,
                        ),
                    ] + events,
                ),
            )
        } else {
            let level = level_above(self.level);
            (
                ControllerView {
                    cooldown_until_unix_ms: self.cooldown_after(observation) as u64,
                    level,
                    instance_levels: raised(self.instance_levels, level),
                    ..reset
                },
                Ok(
                    seq![
                        control_event(
                            None,
                            self.level,
                            level,
                            escalation_reason(observation),
                            false,
                            None,
                            observation,
                        ),
                    ],
                ),
            )
        }
    }

    /// The step that a valid observation makes once the workloads are synced.
    pub open spec fn after_observation(self, observation: PerformanceControlObservation) ->
        ControlStep {
        if self.last_observed_at_unix_ms is Some && self.config.clock_jump_threshold.millis
            > u64::MAX {
            (self, Err(duration_error()))
        } else if self.clock_jumped(observation) {
            self.after_jump(observation)
        } else {
            let noted = self.with_observation(observation);
            match asked_level(observation) {
                None => (noted.without_candidate(), Ok(Seq::empty())),
                Some(target) => if target == self.level {
                    noted.after_matching(target, observation)
                } else {
                    let candidate = noted.with_candidate(target);
                    if candidate.transition_due(target, observation) {
                        candidate.after_transition(target, observation)
                    } else {
                        (candidate, Ok(Seq::empty()))
                    }
                },
            }
        }
    }
}

/// The levels, none of them below a level.
pub open spec fn raised(levels: InstanceLevels, level: PerformanceControlLevel) -> InstanceLevels {
    levels.map_values(|other: PerformanceControlLevel| higher_level(level, other))
}

pub proof fn lemma_first_above_unique(
    levels: InstanceLevels,
    level: PerformanceControlLevel,
    id: Seq<char>,
)
    requires
        is_first_above(levels, level, id),
    ensures
        first_above(levels, level) == Some(id),
{
    let chosen = choose|other: Seq<char>| is_first_above(levels, level, other);
    assert(is_first_above(levels, level, chosen));
    assert(levels.contains_key(chosen) && levels.contains_key(id));
    lemma_text_order(id, chosen, id);
}

impl PerformanceBalanceController {
    /// The parts of the controller are valid, each by itself.
    pub open spec fn parts_wf(&self) -> bool {
        self.config.valid() && self.instance_levels.wf()
    }

    /// The parts are valid, and no tracked instance stands below the host.
    pub open spec fn wf(&self) -> bool {
        self.parts_wf() && self@.none_below()
    }

    pub fn new(config: PerformanceControlConfig) -> (result: RuntimeHostResult<Self>)
        ensures
            config.valid() ==> (result matches Ok(controller) && controller.wf() && controller@ == (
            ControllerView {
                config,
                level: PerformanceControlLevel::Normal,
                instance_levels: Map::empty(),
                last_observed_at_unix_ms: None,
                cooldown_until_unix_ms: 0,
                candidate_level: None,
                candidate_samples: 0,
                last_observation: None,
            })),
            !config.valid() ==> (result matches Err(error) && error == control_error(
                "performance_control_config_invalid",
                "validate_performance_control_config",
            )),
    {
        config.validate()?;
        Ok(
            PerformanceBalanceController {
                config,
                level: PerformanceControlLevel::Normal,
                instance_levels: OrderedMap::new(),
                last_observed_at_unix_ms: None,
                cooldown_until_unix_ms: 0,
                candidate_level: None,
                candidate_samples: 0,
                last_observation: None,
            },
        )
    }

    /// When the next transition may come after one at the observation.
    fn cooldown_end(
        &self,
        observation: &PerformanceControlObservation,
        operation: &'static str,
    ) -> (result: RuntimeHostResult<u64>)
        ensures
            match self@.cooldown_error(*observation, operation) {
                Some(error) => result == Err::<u64, _>(error),
                None => result == Ok::<_, RuntimeHostError>(
                    self@.cooldown_after(*observation) as u64,
                ),
            },
    {
        match self.config.transition_cooldown.whole_millis() {
            None => Err(duration_overflow()),
            Some(millis) => match observation.observed_at_unix_ms.checked_add(millis) {
                Some(until) => Ok(until),
                None => Err(control_fatal("performance_control_time_overflow", operation)),
            },
        }
    }

    /// Takes an observation and the instances that are at work.
    pub fn observe(
        &mut self,
        observation: PerformanceControlObservation,
        workloads: &Vec<PerformanceControlWorkload>,
    ) -> (result: RuntimeHostResult<Vec<PerformanceControlEventData>>)
        requires
            old(self).wf(),
        ensures
            final(self).wf(),
            if !observation.valid() {
                &&& result matches Err(error) && error == control_error(
                    "performance_control_observation_invalid",
                    "observe_performance_contention",
                )
                &&& final(self)@ == old(self)@
            } else if !workloads_valid(workload_ids(workloads@)) {
                &&& result matches Err(error) && error == control_error(
                    "performance_control_workload_invalid",
                    "sync_performance_workloads",
                )
                &&& final(self)@ == (ControllerView {
                    instance_levels: joined(
                        old(self)@.instance_levels,
                        old(self).level,
                        workload_ids(workloads@).take(first_invalid(workload_ids(workloads@))),
                    ),
                    ..old(self)@
                })
            } else {
                let (state, step) = (ControllerView {
                    instance_levels: synced(
                        old(self)@.instance_levels,
                        old(self).level,
                        workload_ids(workloads@),
                    ),
                    ..old(self)@
                }).after_observation(observation);
                &&& final(self)@ == state
                &&& match step {
                    Ok(events) => result matches Ok(actual) && control_events(actual@) == events,
                    Err(error) => result matches Err(actual) && actual == error,
                }
            },
    {
        observation.validate()?;
        self.sync_workloads(workloads)?;
        let ghost base = self@;
        proof {
            law_no_instance_stands_below_the_host(base, observation);
        }
        if let Some(previous) = self.last_observed_at_unix_ms {
            let jump_threshold: u64 = match self.config.clock_jump_threshold.whole_millis() {
                Some(millis) => millis,
                None => {
                    return Err(duration_overflow());
                },
            };
            if observation.observed_at_unix_ms < previous || observation.observed_at_unix_ms
                - previous > jump_threshold {
                self.candidate_level = None;
                self.candidate_samples = 0;
                self.cooldown_until_unix_ms = self.cooldown_end(&observation, "observe_performance_clock_jump")?;
                self.last_observed_at_unix_ms = Some(observation.observed_at_unix_ms);
                self.last_observation = Some(observation);
                let mut events: Vec<PerformanceControlEventData> = Vec::new();
                events.push(
                    event(
                        None,
                        self.level,
                        self.level,
                        PerformanceControlReason::ClockJump,
                        false,
                        None,
                        &observation,
                    ),
                );
                assert(control_events(events@) =~= base.after_jump(observation).1->Ok_0);
                return Ok(events);
            }
        }
        self.last_observed_at_unix_ms = Some(observation.observed_at_unix_ms);
        self.last_observation = Some(observation);
        let target = match target_level(&observation) {
            Some(target) => target,
            None => {
                self.candidate_level = None;
                self.candidate_samples = 0;
                let events: Vec<PerformanceControlEventData> = Vec::new();
                assert(control_events(events@) =~= Seq::empty());
                return Ok(events);
            },
        };
        if target == self.level {
            return self.recover_instances_if_due(target, &observation);
        }
        let same_candidate = match self.candidate_level {
            Some(level) => level == target,
            None => false,
        };
        if same_candidate {
            self.candidate_samples = self.candidate_samples.saturating_add(1);
        } else {
            self.candidate_level = Some(target);
            self.candidate_samples = 1;
        }
        let required: u16 = if target.rank() > self.level.rank() {
            self.config.escalation_samples
        } else {
            self.config.recovery_samples
        };
        if self.candidate_samples < required || observation.observed_at_unix_ms
            < self.cooldown_until_unix_ms {
            let events: Vec<PerformanceControlEventData> = Vec::new();
            assert(control_events(events@) =~= Seq::empty());
            return Ok(events);
        }
        let ghost candidate = self@;
        self.candidate_level = None;
        self.candidate_samples = 0;
        self.cooldown_until_unix_ms = self.cooldown_end(&observation, "transition_performance_control")?;
        let previous = self.level;
        let recovery = target.rank() < previous.rank();
        self.level = if recovery {
            previous_level(previous)
        } else {
            next_level(previous)
        };
        if !recovery {
            self.raise_instances();
        }
        let reason = if recovery {
            PerformanceControlReason::Recovery
        } else {
            control_reason(&observation)
        };
        let mut events: Vec<PerformanceControlEventData> = Vec::new();
        events.push(event(None, previous, self.level, reason, recovery, None, &observation));
        if recovery {
            let ghost first = control_events(events@);
            let ghost before = self@;
            if let Some(recovered) = self.recover_one_instance(&observation) {
                events.push(recovered);
            }
            assert(control_events(events@) =~= first + before.after_instance_recovery(
                observation,
            ).1);
            assert(first =~= seq![first[0]]);
        }
        assert(control_events(events@) =~= candidate.after_transition(target, observation).1->Ok_0);
        Ok(events)
    }

    fn raise_instances(&mut self)
        requires
            old(self).parts_wf(),
        ensures
            final(self).parts_wf(),
            final(self)@ == (ControllerView {
                instance_levels: raised(old(self)@.instance_levels, old(self).level),
                ..old(self)@
            }),
    {
        let mut index: usize = 0;
        let ghost levels = self.instance_levels@;
        let ghost keys = self.instance_levels.keys();
        let ghost start = *self;
        while index < self.instance_levels.len()
            invariant
                self.parts_wf(),
                start == *old(self),
                levels == start@.instance_levels,
                keys == start.instance_levels.keys(),
                self.instance_levels.keys() == keys,
                index <= keys.len(),
                self@ == (ControllerView { instance_levels: self@.instance_levels, ..start@ }),
                self@.instance_levels.dom() == levels.dom(),
                forall|i: int|
                    0 <= i < index ==> self@.instance_levels[#[trigger] keys[i]] == higher_level(
                        start.level,
                        levels[keys[i]],
                    ),
                forall|i: int|
                    index <= i < keys.len() ==> self@.instance_levels[#[trigger] keys[i]]
                        == levels[keys[i]],
            decreases keys.len() - index,
        {
            let level = self.instance_levels.entries[index].1;
            proof {
                lemma_entry(self.instance_levels.entries@, index as int);
                assert(keys[index as int] == self.instance_levels.entries@[index as int].0@);
            }
            if level.rank() < self.level.rank() {
                let raised_level = self.level;
                self.instance_levels.replace_at(index, raised_level);
            }
            proof {
                assert forall|i: int| 0 <= i < keys.len() && i != index implies #[trigger] keys[i]
                    != keys[index as int] by {
                    lemma_text_order(keys[i], keys[i], keys[i]);
                    if i < index {
                        assert(String::less(keys[i], keys[index as int]));
                    } else {
                        assert(String::less(keys[index as int], keys[i]));
                    }
                }
                assert(levels.contains_key(keys[index as int]));
                assert(self@.instance_levels.dom() =~= levels.dom());
            }
            index += 1;
        }
        proof {
            let after = self@.instance_levels;
            assert forall|id: Seq<char>| after.contains_key(id) implies #[trigger] after[id]
                == raised(levels, start.level)[id] by {
                assert(keys.contains(id));
                let i = keys.index_of(id);
                assert(keys[i] == id);
            }
            assert(after =~= raised(levels, start.level));
        }
    }

    /// Lays the control over the resources that hosts offer.
    pub fn apply_to_resources(
        &self,
        resources: &mut Vec<HostResourceSnapshot>,
        workloads: &Vec<PerformanceControlWorkload>,
    ) -> (result: RuntimeHostResult<()>)
        requires
            self.wf(),
        ensures
            heavy_workloads(workloads@) > u16::MAX ==> result == Err::<(), _>(
                control_error(
                    "performance_heavy_count_overflow",
                    "apply_performance_control_resources",
                ),
            ) && final(resources)@ == old(resources)@,
            heavy_workloads(workloads@) <= u16::MAX ==> {
                &&& result is Ok
                &&& final(resources)@.len() == old(resources)@.len()
                &&& forall|i: int|
                    0 <= i < old(resources)@.len() ==> overlaid(
                        self@,
                        heavy_workloads(workloads@),
                        old(resources)@[i],
                        #[trigger] final(resources)@[i],
                    )
            },
    {
        let mut heavy_count: usize = 0;
        let mut index: usize = 0;
        assert(workloads@.take(0) =~= Seq::empty());
        while index < workloads.len()
            invariant
                index <= workloads.len(),
                heavy_count <= index,
                heavy_count == heavy_workloads(workloads@.take(index as int)),
            decreases workloads.len() - index,
        {
            proof {
                let taken = workloads@.take(index + 1);
                assert(taken.drop_last() =~= workloads@.take(index as int));
                assert(taken.last() == workloads@[index as int]);
            }
            if is_heavy(&workloads[index].load_profile) {
                heavy_count += 1;
            }
            index += 1;
        }
        assert(workloads@.take(workloads@.len() as int) =~= workloads@);
        if heavy_count > u16::MAX as usize {
            return Err(
                control_fatal(
                    "performance_heavy_count_overflow",
                    "apply_performance_control_resources",
                ),
            );
        }
        let heavy_count: u16 = heavy_count as u16;
        let factor: u16 = control_budget_factor_milli(self.level);
        let limit: u16 = if self.level == PerformanceControlLevel::Normal {
            self.config.normal_heavy_dispatch_limit
        } else {
            self.config.pressured_heavy_dispatch_limit
        };
        let ghost original = resources@;
        let mut position: usize = 0;
        while position < resources.len()
            invariant
                position <= resources@.len(),
                resources@.len() == original.len(),
                original == old(resources)@,
                heavy_count == heavy_workloads(workloads@),
                factor == budget_factor_milli(self.level),
                factor <= 1_000,
                limit == heavy_limit(self@),
                forall|i: int|
                    0 <= i < position ==> overlaid(
                        self@,
                        heavy_workloads(workloads@),
                        original[i],
                        #[trigger] resources@[i],
                    ),
                forall|i: int|
                    position <= i < original.len() ==> #[trigger] resources@[i] == original[i],
            decreases resources.len() - position,
        {
            let host = &resources[position];
            let cpu = scaled_budget(host.cpu_available_milli, factor)?;
            let gpu = scaled_budget(host.gpu_available_milli, factor)?;
            let io = scaled_budget(host.io_available_milli, factor)?;
            let mut responsiveness: u16 = host.host_responsiveness_basis_points;
            let mut pressure: u16 = host.third_party_pressure_basis_points;
            if let Some(observation) = self.last_observation {
                if let Some(value) = observation.host_responsiveness_basis_points {
                    responsiveness = value;
                }
                if let Some(value) = observation.third_party_pressure_basis_points {
                    pressure = value;
                }
            }
            let overlay = HostResourceSnapshot {
                host_id: host.host_id.clone(),
                cpu_available_milli: cpu,
                gpu_available_milli: gpu,
                io_available_milli: io,
                host_responsiveness_basis_points: responsiveness,
                third_party_pressure_basis_points: pressure,
                heavy_dispatch_limit: limit,
                active_heavy_dispatches: if heavy_count < limit {
                    heavy_count
                } else {
                    limit
                },
            };
            resources.set(position, overlay);
            position += 1;
        }
        Ok(())
    }

    /// Whether a dispatch may go on. Above the normal level none may, however
    /// close its deadline is.
    pub fn gate_dispatch(&self, instance_id: &str, urgency_milli: u16, observed_at_unix_ms: u64) -> (
    result: RuntimeHostResult<PerformanceDispatchGate>)
        ensures
            if urgency_milli > 1_000 || instance_id@.len() == 0 || observed_at_unix_ms == 0 {
                result matches Err(error) && error == control_error(
                    "performance_dispatch_gate_invalid",
                    "gate_performance_dispatch",
                )
            } else {
                result matches Ok(gate) && gate_is(
                    gate,
                    self@,
                    instance_id@,
                    urgency_milli,
                    observed_at_unix_ms,
                )
            },
    {
        if urgency_milli > 1_000 || instance_id.is_empty() || observed_at_unix_ms == 0 {
            return Err(
                control_fatal("performance_dispatch_gate_invalid", "gate_performance_dispatch"),
            );
        }
        if self.level == PerformanceControlLevel::Normal {
            return Ok(PerformanceDispatchGate::Allowed);
        }
        let deadline_disposition = if urgency_milli >= 950 {
            Some(PerformanceDeadlineDisposition::CapacityFailure)
        } else if urgency_milli >= 750 {
            Some(PerformanceDeadlineDisposition::InformationWarning)
        } else {
            None
        };
        let mut conflict: Option<PerformanceControlEventData> = None;
        if let Some(disposition) = deadline_disposition {
            let mut observation = match self.last_observation {
                Some(observation) => observation,
                None => PerformanceControlObservation {
                    observed_at_unix_ms,
                    host_responsiveness_basis_points: None,
                    third_party_pressure_basis_points: None,
                    foreground_fullscreen: false,
                },
            };
            observation.observed_at_unix_ms = observed_at_unix_ms;
            conflict = Some(
                event(
                    Some(String::from_str(instance_id)),
                    self.level,
                    self.level,
                    PerformanceControlReason::DeadlineConflict,
                    false,
                    Some(disposition),
                    &observation,
                ),
            );
        }
        let reason = if urgency_milli >= 950 {
            "performance_capacity_deadline_conflict"
        } else {
            "performance_contention_dispatch_deferred"
        };
        Ok(PerformanceDispatchGate::Deferred { reason, deadline_disposition, event: conflict })
    }

    /// What an instance has to do under the control.
    pub fn directive(&self, instance_id: &str) -> (result: RuntimeHostResult<
        PerformanceControlDirective,
    >)
        requires
            self.wf(),
        ensures
            instance_id@.len() == 0 ==> (result matches Err(error) && error == control_error(
                "performance_control_instance_invalid",
                "read_performance_control_directive",
            )),
            instance_id@.len() > 0 ==> (result matches Ok(directive) && directive_is(
                directive,
                instance_id@,
                instance_level(self@, instance_id@),
            )),
    {
        if instance_id.is_empty() {
            return Err(
                control_fatal(
                    "performance_control_instance_invalid",
                    "read_performance_control_directive",
                ),
            );
        }
        let key = String::from_str(instance_id);
        let own = match self.instance_levels.get(&key) {
            Some(level) => *level,
            None => self.level,
        };
        let level = higher(own, self.level);
        let rank: u64 = level.rank() as u64;
        Ok(
            PerformanceControlDirective {
                instance_id: key,
                level,
                throttle_delay_ms: if rank <= 1 {
                    0
                } else {
                    (rank - 1) * 50
                },
                yield_requested: rank >= 3,
                qos_reduced: rank >= 4,
                suspend_requested: rank >= 5,
                shutdown_requested: rank >= 6,
            },
        )
    }

    fn sync_workloads(&mut self, workloads: &Vec<PerformanceControlWorkload>) -> (result:
        RuntimeHostResult<()>)
        requires
            old(self).parts_wf(),
        ensures
            final(self).parts_wf(),
            workloads_valid(workload_ids(workloads@)) ==> result is Ok && final(self)@ == (
            ControllerView {
                instance_levels: synced(
                    old(self)@.instance_levels,
                    old(self).level,
                    workload_ids(workloads@),
                ),
                ..old(self)@
            }),
            !workloads_valid(workload_ids(workloads@)) ==> {
                &&& result == Err::<(), _>(
                    control_error(
                        "performance_control_workload_invalid",
                        "sync_performance_workloads",
                    ),
                )
                &&& final(self)@ == (ControllerView {
                    instance_levels: joined(
                        old(self)@.instance_levels,
                        old(self).level,
                        workload_ids(workloads@).take(first_invalid(workload_ids(workloads@))),
                    ),
                    ..old(self)@
                })
            },
    {
        let ghost ids = workload_ids(workloads@);
        let ghost levels = self@.instance_levels;
        let ghost start = *self;
        let mut index: usize = 0;
        assert(joined(levels, self.level, ids.take(0)) =~= levels);
        while index < workloads.len()
            invariant
                index <= workloads.len(),
                self.parts_wf(),
                start == *old(self),
                ids == workload_ids(workloads@),
                levels == start@.instance_levels,
                workloads_valid(ids.take(index as int)),
                self@ == (ControllerView {
                    instance_levels: joined(levels, start.level, ids.take(index as int)),
                    ..start@
                }),
            decreases workloads.len() - index,
        {
            let workload = &workloads[index];
            let ghost id = ids[index as int];
            let mut repeated = false;
            let mut earlier: usize = 0;
            while earlier < index
                invariant
                    earlier <= index < workloads.len(),
                    ids == workload_ids(workloads@),
                    id == ids[index as int],
                    workload.instance_id@ == id,
                    repeated == exists|i: int| 0 <= i < earlier && #[trigger] ids[i] == id,
                decreases index - earlier,
            {
                if same_text(workloads[earlier].instance_id.as_str(), workload.instance_id.as_str()) {
                    assert(ids[earlier as int] == id);
                    repeated = true;
                }
                earlier += 1;
            }
            if workload.instance_id.as_str().is_empty() || repeated {
                proof {
                    if repeated {
                        let i = choose|i: int| 0 <= i < index && #[trigger] ids[i] == id;
                        assert(ids[i] == ids[index as int]);
                        assert(!ids.no_duplicates());
                    } else {
                        assert(ids[index as int].len() == 0);
                    }
                    assert(!workloads_valid(ids));
                    if repeated {
                        let i = choose|i: int| 0 <= i < index && #[trigger] ids[i] == id;
                        assert(ids.take(index as int)[i] == id);
                    }
                    assert(!joins(ids, index as int));
                    lemma_first_invalid(ids, index as int);
                }
                return Err(
                    control_fatal(
                        "performance_control_workload_invalid",
                        "sync_performance_workloads",
                    ),
                );
            }
            proof {
                let next = ids.take(index + 1);
                assert(next =~= ids.take(index as int).push(id));
                assert forall|i: int, j: int| 0 <= i < next.len() && 0 <= j < next.len() && i
                    != j implies next[i] != next[j] by {
                    if i == index {
                        assert(ids[j] == next[j]);
                    } else if j == index {
                        assert(ids[i] == next[i]);
                    } else {
                        assert(ids.take(index as int)[i] == next[i]);
                        assert(ids.take(index as int)[j] == next[j]);
                    }
                }
                assert forall|i: int| 0 <= i < next.len() implies (#[trigger] next[i]).len() > 0 by {
                    if i < index {
                        assert(ids.take(index as int)[i] == next[i]);
                    }
                }
                assert forall|other: Seq<char>| #[trigger] next.contains(other) == (ids.take(
                    index as int,
                ).contains(other) || other == id) by {
                    if ids.take(index as int).contains(other) {
                        let k = ids.take(index as int).index_of(other);
                        assert(next[k] == other);
                    }
                    if next.contains(other) {
                        let k = next.index_of(other);
                        if k < index {
                            assert(ids.take(index as int)[k] == other);
                        }
                    }
                    assert(next[index as int] == id);
                }
            }
            if !self.instance_levels.contains(&workload.instance_id) {
                self.instance_levels.insert(workload.instance_id.clone(), self.level);
            }
            proof {
                assert(self@.instance_levels =~= joined(levels, start.level, ids.take(index + 1)));
            }
            index += 1;
        }
        assert(ids.take(ids.len() as int) =~= ids);
        let ghost all = self@.instance_levels;
        let mut position: usize = 0;
        while position < self.instance_levels.len()
            invariant
                self.parts_wf(),
                start == *old(self),
                ids == workload_ids(workloads@),
                workloads_valid(ids),
                position <= self.instance_levels.entries@.len(),
                self@ == (ControllerView { instance_levels: self@.instance_levels, ..start@ }),
                forall|id: Seq<char>| #[trigger]
                    self@.instance_levels.contains_key(id) ==> all.contains_key(id)
                        && self@.instance_levels[id] == all[id],
                forall|id: Seq<char>| #[trigger]
                    all.contains_key(id) && ids.contains(id)
                        ==> self@.instance_levels.contains_key(id),
                forall|i: int|
                    0 <= i < position ==> ids.contains(#[trigger] self.instance_levels.keys()[i]),
            decreases self.instance_levels.entries@.len() - position,
        {
            let ghost key = self.instance_levels.keys()[position as int];
            let mut active = false;
            let mut index: usize = 0;
            while index < workloads.len()
                invariant
                    index <= workloads.len(),
                    position < self.instance_levels.entries@.len(),
                    ids == workload_ids(workloads@),
                    key == self.instance_levels.entries@[position as int].0@,
                    active == exists|i: int| 0 <= i < index && #[trigger] ids[i] == key,
                decreases workloads.len() - index,
            {
                if same_text(
                    workloads[index].instance_id.as_str(),
                    self.instance_levels.entries[position].0.as_str(),
                ) {
                    assert(ids[index as int] == key);
                    active = true;
                }
                index += 1;
            }
            if active {
                position += 1;
            } else {
                let ghost keys = self.instance_levels.keys();
                let ghost before = self.instance_levels;
                self.instance_levels.remove_at(position);
                proof {
                    assert(!ids.contains(key));
                    assert forall|i: int| 0 <= i < position implies ids.contains(
                        #[trigger] self.instance_levels.keys()[i],
                    ) by {
                        assert(self.instance_levels.keys()[i] == keys[i]);
                    }
                }
            }
        }
        proof {
            let after = self@.instance_levels;
            let wanted = synced(levels, start.level, ids);
            assert forall|id: Seq<char>| #[trigger] after.contains_key(id)
                == wanted.contains_key(id) by {
                if after.contains_key(id) {
                    let keys = self.instance_levels.keys();
                    assert(keys.contains(id));
                    let i = keys.index_of(id);
                    assert(ids.contains(keys[i]));
                }
                if ids.contains(id) {
                    assert(all.contains_key(id));
                }
            }
            assert(after =~= wanted);
        }
        Ok(())
    }

    fn recover_instances_if_due(
        &mut self,
        target: PerformanceControlLevel,
        observation: &PerformanceControlObservation,
    ) -> (result: RuntimeHostResult<Vec<PerformanceControlEventData>>)
        requires
            old(self).parts_wf(),
        ensures
            final(self).parts_wf(),
            ({
                let (state, step) = old(self)@.after_matching(target, *observation);
                &&& final(self)@ == state
                &&& match step {
                    Ok(events) => result matches Ok(actual) && control_events(actual@) == events,
                    Err(error) => result matches Err(actual) && actual == error,
                }
            }),
    {
        let mut events: Vec<PerformanceControlEventData> = Vec::new();
        assert(control_events(events@) =~= Seq::empty());
        self.candidate_level = None;
        if target != PerformanceControlLevel::Normal || observation.observed_at_unix_ms
            < self.cooldown_until_unix_ms || !self.has_instance_above() {
            self.candidate_samples = 0;
            return Ok(events);
        }
        self.candidate_samples = self.candidate_samples.saturating_add(1);
        if self.candidate_samples < self.config.recovery_samples {
            return Ok(events);
        }
        self.candidate_samples = 0;
        self.cooldown_until_unix_ms = self.cooldown_end(observation, "recover_performance_instance")?;
        let ghost before = self@;
        if let Some(recovered) = self.recover_one_instance(observation) {
            events.push(recovered);
        }
        assert(control_events(events@) =~= before.after_instance_recovery(*observation).1);
        Ok(events)
    }

    fn find_first_above(&self) -> (found: Option<usize>)
        requires
            self.parts_wf(),
        ensures
            match found {
                Some(index) => index < self.instance_levels.entries@.len() && first_above(
                    self@.instance_levels,
                    self.level,
                ) == Some(self.instance_levels.keys()[index as int]) && any_above(
                    self@.instance_levels,
                    self.level,
                ),
                None => first_above(self@.instance_levels, self.level) is None && !any_above(
                    self@.instance_levels,
                    self.level,
                ),
            },
    {
        let ghost keys = self.instance_levels.keys();
        let ghost levels = self@.instance_levels;
        let mut index: usize = 0;
        while index < self.instance_levels.len()
            invariant
                self.parts_wf(),
                keys == self.instance_levels.keys(),
                levels == self@.instance_levels,
                index <= keys.len(),
                forall|i: int|
                    0 <= i < index ==> levels[#[trigger] keys[i]].spec_rank()
                        <= self.level.spec_rank(),
            decreases keys.len() - index,
        {
            proof {
                lemma_entry(self.instance_levels.entries@, index as int);
                assert(keys[index as int] == self.instance_levels.entries@[index as int].0@);
            }
            if self.instance_levels.entries[index].1.rank() > self.level.rank() {
                proof {
                    let id = keys[index as int];
                    assert(levels.contains_key(id));
                    assert forall|other: Seq<char>| #[trigger]
                        levels.contains_key(other) && levels[other].spec_rank()
                            > self.level.spec_rank() implies other == id || text_less(
                        id,
                        other,
                    ) by {
                        assert(keys.contains(other));
                        let i = keys.index_of(other);
                        assert(keys[i] == other);
                        if i > index {
                            assert(String::less(keys[index as int], keys[i]));
                        }
                    }
                    assert(is_first_above(levels, self.level, id));
                    lemma_first_above_unique(levels, self.level, id);
                }
                return Some(index);
            }
            index += 1;
        }
        proof {
            assert forall|id: Seq<char>| #[trigger] levels.contains_key(id) implies levels[id].spec_rank()
                <= self.level.spec_rank() by {
                assert(keys.contains(id));
                let i = keys.index_of(id);
                assert(keys[i] == id);
            }
        }
        None
    }

    fn has_instance_above(&self) -> (above: bool)
        requires
            self.parts_wf(),
        ensures
            above == any_above(self@.instance_levels, self.level),
    {
        self.find_first_above().is_some()
    }

    fn recover_one_instance(&mut self, observation: &PerformanceControlObservation) -> (recovered:
        Option<PerformanceControlEventData>)
        requires
            old(self).parts_wf(),
        ensures
            final(self).parts_wf(),
            ({
                let (state, events) = old(self)@.after_instance_recovery(*observation);
                &&& final(self)@ == state
                &&& match recovered {
                    Some(event) => events == seq![event@],
                    None => events == Seq::<ControlEventView>::empty(),
                }
            }),
    {
        match self.find_first_above() {
            None => None,
            Some(index) => {
                let instance_id = self.instance_levels.entries[index].0.clone();
                let previous = self.instance_levels.entries[index].1;
                proof {
                    lemma_entry(self.instance_levels.entries@, index as int);
                    assert(self.instance_levels.keys()[index as int] == instance_id@);
                }
                let level = higher(previous_level(previous), self.level);
                self.instance_levels.replace_at(index, level);
                Some(
                    event(
                        Some(instance_id),
                        previous,
                        level,
                        PerformanceControlReason::Recovery,
                        true,
                        None,
                        observation,
                    ),
                )
            },
        }
    }
}

/// The number of heavy workloads.
pub open spec fn heavy_workloads(workloads: Seq<PerformanceControlWorkload>) -> nat
    decreases workloads.len(),
{
    if workloads.len() == 0 {
        0
    } else {
        heavy_workloads(workloads.drop_last()) + if heavy(workloads.last().load_profile) {
            1nat
        } else {
            0
        }
    }
}

/// How many heavy dispatches a host may run.
pub open spec fn heavy_limit(controller: ControllerView) -> u16 {
    if controller.level == PerformanceControlLevel::Normal {
        controller.config.normal_heavy_dispatch_limit
    } else {
        controller.config.pressured_heavy_dispatch_limit
    }
}

/// A host's resources with the control laid over them.
pub open spec fn overlaid(
    controller: ControllerView,
    heavy_count: nat,
    before: HostResourceSnapshot,
    after: HostResourceSnapshot,
) -> bool {
    let factor = budget_factor_milli(controller.level);
    let limit = heavy_limit(controller);
    &&& after.host_id@ == before.host_id@
    &&& after.cpu_available_milli == scaled(before.cpu_available_milli, factor)
    &&& after.gpu_available_milli == scaled(before.gpu_available_milli, factor)
    &&& after.io_available_milli == scaled(before.io_available_milli, factor)
    &&& after.host_responsiveness_basis_points == match controller.last_observation {
        Some(PerformanceControlObservation {
            host_responsiveness_basis_points: Some(value),
            ..
        }) => value,
        _ => before.host_responsiveness_basis_points,
    }
    &&& after.third_party_pressure_basis_points == match controller.last_observation {
        Some(PerformanceControlObservation {
            third_party_pressure_basis_points: Some(value),
            ..
        }) => value,
        _ => before.third_party_pressure_basis_points,
    }
    &&& after.heavy_dispatch_limit == limit
    &&& after.active_heavy_dispatches == if heavy_count < limit {
        heavy_count as int
    } else {
        limit as int
    }
}

/// What becomes of a deadline with an urgency.
pub open spec fn deadline_conflict(urgency_milli: u16) -> Option<PerformanceDeadlineDisposition> {
    if urgency_milli >= 950 {
        Some(PerformanceDeadlineDisposition::CapacityFailure)
    } else if urgency_milli >= 750 {
        Some(PerformanceDeadlineDisposition::InformationWarning)
    } else {
        None
    }
}

/// The latest observation, dated at the conflict.
pub open spec fn conflict_observation(
    last: Option<PerformanceControlObservation>,
    observed_at_unix_ms: u64,
) -> PerformanceControlObservation {
    match last {
        Some(observation) => PerformanceControlObservation { observed_at_unix_ms, ..observation },
        None => PerformanceControlObservation {
            observed_at_unix_ms,
            host_responsiveness_basis_points: None,
            third_party_pressure_basis_points: None,
            foreground_fullscreen: false,
        },
    }
}

/// The answer to a dispatch under a controller.
pub open spec fn gate_is(
    gate: PerformanceDispatchGate,
    controller: ControllerView,
    instance_id: Seq<char>,
    urgency_milli: u16,
    observed_at_unix_ms: u64,
) -> bool {
    if controller.level == PerformanceControlLevel::Normal {
        gate is Allowed
    } else {
        &&& gate matches PerformanceDispatchGate::Deferred { reason, deadline_disposition, event }
        &&& deadline_disposition == deadline_conflict(urgency_milli)
        &&& reason == if urgency_milli >= 950 {
            "performance_capacity_deadline_conflict"
        } else {
            "performance_contention_dispatch_deferred"
        }
        &&& match deadline_conflict(urgency_milli) {
            None => event is None,
            Some(disposition) => event matches Some(data) && data@ == control_event(
                Some(instance_id),
                controller.level,
                controller.level,
                PerformanceControlReason::DeadlineConflict,
                false,
                Some(disposition),
                conflict_observation(controller.last_observation, observed_at_unix_ms),
            ),
        }
    }
}

/// What an instance at a level has to do.
pub open spec fn directive_is(
    directive: PerformanceControlDirective,
    instance_id: Seq<char>,
    level: PerformanceControlLevel,
) -> bool {
    &&& directive.instance_id@ == instance_id
    &&& directive.level == level
    &&& directive.throttle_delay_ms == if level.spec_rank() <= 1 {
        0
    } else {
        (level.spec_rank() - 1) * 50
    }
    &&& directive.yield_requested == (level.spec_rank() >= 3)
    &&& directive.qos_reduced == (level.spec_rank() >= 4)
    &&& directive.suspend_requested == (level.spec_rank() >= 5)
    &&& directive.shutdown_requested == (level.spec_rank() >= 6)
}

/// The level that holds for an instance: its own, never below the host's.
pub open spec fn instance_level(controller: ControllerView, instance_id: Seq<char>) ->
    PerformanceControlLevel {
    higher_level(
        if controller.instance_levels.contains_key(instance_id) {
            controller.instance_levels[instance_id]
        } else {
            controller.level
        },
        controller.level,
    )
}

/// One observation moves the host's level by at most one step, and by none
/// while the cooldown lasts.
pub proof fn law_level_moves_one_step(
    controller: ControllerView,
    observation: PerformanceControlObservation,
)
    ensures
        ({
            let after = controller.after_observation(observation).0;
            &&& after.level.spec_rank() <= controller.level.spec_rank() + 1
            &&& after.level.spec_rank() >= controller.level.spec_rank() - 1
            &&& observation.observed_at_unix_ms < controller.cooldown_until_unix_ms ==> after.level
                == controller.level
        }),
{
}

/// One observation lowers the level of at most one instance.
pub proof fn law_one_instance_recovers_at_a_time(
    controller: ControllerView,
    observation: PerformanceControlObservation,
    first: Seq<char>,
    second: Seq<char>,
)
    requires
        controller.instance_levels.contains_key(first),
        controller.instance_levels.contains_key(second),
    ensures
        ({
            let after = controller.after_observation(observation).0.instance_levels;
            &&& after.dom() == controller.instance_levels.dom()
            &&& after[first].spec_rank() < controller.instance_levels[first].spec_rank()
                && after[second].spec_rank() < controller.instance_levels[second].spec_rank()
                ==> first == second
        }),
{
    let noted = controller.with_observation(observation);
    let after = controller.after_observation(observation).0.instance_levels;
    assert(after.dom() =~= controller.instance_levels.dom()) by {
        if first_above(controller.instance_levels, controller.level) is Some {
            let id = choose|id: Seq<char>|
                is_first_above(controller.instance_levels, controller.level, id);
            assert(is_first_above(controller.instance_levels, controller.level, id));
        }
        let below = level_below(controller.level);
        if first_above(controller.instance_levels, below) is Some {
            let id = choose|id: Seq<char>| is_first_above(controller.instance_levels, below, id);
            assert(is_first_above(controller.instance_levels, below, id));
        }
    }
}

/// An observation leaves no tracked instance below the host's level.
pub proof fn law_no_instance_stands_below_the_host(
    controller: ControllerView,
    observation: PerformanceControlObservation,
)
    requires
        controller.none_below(),
    ensures
        controller.after_observation(observation).0.none_below(),
{
    lemma_levels_after(controller, observation);
}

/// The instance that recovers falls by exactly one step.
pub proof fn law_recovering_instance_falls_one_step(
    controller: ControllerView,
    observation: PerformanceControlObservation,
    id: Seq<char>,
)
    requires
        controller.instance_levels.contains_key(id),
    ensures
        ({
            let before = controller.instance_levels[id];
            let after = controller.after_observation(observation).0.instance_levels[id];
            after.spec_rank() < before.spec_rank() ==> after == level_below(before)
                && after.spec_rank() == before.spec_rank() - 1
        }),
{
    lemma_levels_after(controller, observation);
}

/// The levels that an observation leaves: unchanged, all raised to the host's,
/// or one of those above the host lowered by a step.
proof fn lemma_levels_after(controller: ControllerView, observation: PerformanceControlObservation)
    ensures
        ({
            let levels = controller.instance_levels;
            let after = controller.after_observation(observation).0;
            ||| after.instance_levels == levels && after.level.spec_rank()
                <= controller.level.spec_rank()
            ||| after.instance_levels == raised(levels, after.level)
            ||| after.level.spec_rank() <= controller.level.spec_rank() && exists|id: Seq<char>|
                #[trigger] levels.contains_key(id) && levels[id].spec_rank()
                    > after.level.spec_rank() && after.instance_levels == levels.insert(
                    id,
                    level_below(levels[id]),
                )
        }),
{
    let levels = controller.instance_levels;
    let after = controller.after_observation(observation).0;
    if first_above(levels, after.level) is Some {
        let id = choose|id: Seq<char>| is_first_above(levels, after.level, id);
        assert(is_first_above(levels, after.level, id));
        assert(levels.contains_key(id));
        assert(higher_level(level_below(levels[id]), after.level) == level_below(levels[id]));
    }
}

/// A jump of the clock never changes a level.
pub proof fn law_clock_jump_keeps_levels(
    controller: ControllerView,
    observation: PerformanceControlObservation,
)
    requires
        controller.clock_jumped(observation),
        controller.config.clock_jump_threshold.millis <= u64::MAX,
    ensures
        ({
            let after = controller.after_observation(observation).0;
            &&& after.level == controller.level
            &&& after.instance_levels == controller.instance_levels
            &&& after.candidate_level is None && after.candidate_samples == 0
        }),
{
}

/// The levels in their order, each a step above the one before.
pub open spec fn levels_in_order() -> Seq<PerformanceControlLevel> {
    seq![
        PerformanceControlLevel::Normal,
        PerformanceControlLevel::DispatchPaused,
        PerformanceControlLevel::Throttled,
        PerformanceControlLevel::YieldRequested,
        PerformanceControlLevel::QosReduced,
        PerformanceControlLevel::Suspended,
        PerformanceControlLevel::ShutdownRequested,
    ]
}

/// Each level has the rank of its place in the order, a step up leads to the
/// next one and a step down to the one before, and neither leads out of the
/// order.
pub proof fn law_levels_are_in_order(rank: int)
    requires
        0 <= rank < 7,
    ensures
        levels_in_order()[rank].spec_rank() == rank,
        level_above(levels_in_order()[rank]) == levels_in_order()[if rank == 6 {
            6
        } else {
            rank + 1
        }],
        level_below(levels_in_order()[rank]) == levels_in_order()[if rank == 0 {
            0
        } else {
            rank - 1
        }],
{
    assert(rank == 0 || rank == 1 || rank == 2 || rank == 3 || rank == 4 || rank == 5 || rank == 6);
}

/// Less responsiveness never asks for a lower level, and each level is asked
/// for from its own bound on.
pub proof fn law_responsiveness_sets_the_level(value: u16, worse: u16)
    requires
        worse <= value <= 10_000,
    ensures
        level_for_responsiveness(worse).spec_rank() >= level_for_responsiveness(value).spec_rank(),
        level_for_responsiveness(value).spec_rank() >= 1 <==> value < 8_500,
        level_for_responsiveness(value).spec_rank() >= 2 <==> value < 7_500,
        level_for_responsiveness(value).spec_rank() >= 3 <==> value < 6_500,
        level_for_responsiveness(value).spec_rank() >= 4 <==> value < 5_500,
        level_for_responsiveness(value).spec_rank() >= 5 <==> value < 4_500,
        level_for_responsiveness(value).spec_rank() >= 6 <==> value < 3_000,
{
}

/// More pressure from other programs never asks for a lower level, and each
/// level is asked for above its own bound.
pub proof fn law_pressure_sets_the_level(value: u16, worse: u16)
    requires
        value <= worse,
    ensures
        level_for_pressure(worse).spec_rank() >= level_for_pressure(value).spec_rank(),
        level_for_pressure(value).spec_rank() >= 1 <==> value > 1_000,
        level_for_pressure(value).spec_rank() >= 2 <==> value > 2_500,
        level_for_pressure(value).spec_rank() >= 3 <==> value > 4_000,
        level_for_pressure(value).spec_rank() >= 4 <==> value > 5_500,
        level_for_pressure(value).spec_rank() >= 5 <==> value > 7_000,
        level_for_pressure(value).spec_rank() >= 6 <==> value > 8_500,
{
}

/// An observation asks for a level exactly where something was measured, and
/// never for a lower one than either measurement asks for by itself; without
/// anything in full screen it asks for what one of them asks for.
pub proof fn law_worse_measurement_decides(observation: PerformanceControlObservation)
    ensures
        ({
            let responsiveness = observation.host_responsiveness_basis_points;
            let pressure = observation.third_party_pressure_basis_points;
            &&& asked_level(observation) is Some <==> responsiveness is Some || pressure is Some
            &&& asked_level(observation) matches Some(level) ==> {
                &&& responsiveness matches Some(value) ==> level.spec_rank()
                    >= level_for_responsiveness(value).spec_rank()
                &&& pressure matches Some(value) ==> level.spec_rank() >= level_for_pressure(
                    value,
                ).spec_rank()
                &&& !observation.foreground_fullscreen ==> (responsiveness matches Some(value)
                    && level == level_for_responsiveness(value)) || (pressure matches Some(value)
                    && level == level_for_pressure(value))
            }
        }),
{
}

/// An observation that is worse in every measurement never asks for a lower
/// level.
pub proof fn law_worse_observation_asks_for_more(
    better: PerformanceControlObservation,
    worse: PerformanceControlObservation,
)
    requires
        better.host_responsiveness_basis_points is Some,
        worse.host_responsiveness_basis_points is Some,
        better.third_party_pressure_basis_points is Some,
        worse.third_party_pressure_basis_points is Some,
        worse.host_responsiveness_basis_points->0 <= better.host_responsiveness_basis_points->0
            <= 10_000,
        better.third_party_pressure_basis_points->0 <= worse.third_party_pressure_basis_points->0,
        better.foreground_fullscreen ==> worse.foreground_fullscreen,
    ensures
        asked_level(better)->0.spec_rank() <= asked_level(worse)->0.spec_rank(),
{
}

/// A program in full screen that presses on a host whose responsiveness is
/// known asks for one step more, as far as there is one; in every other case
/// the full screen asks for nothing.
pub proof fn law_fullscreen_asks_for_one_step_more(observation: PerformanceControlObservation)
    ensures
        ({
            let windowed = asked_level(
                PerformanceControlObservation { foreground_fullscreen: false, ..observation },
            );
            let fullscreen = asked_level(
                PerformanceControlObservation { foreground_fullscreen: true, ..observation },
            );
            let contends = observation.host_responsiveness_basis_points is Some && (
            observation.third_party_pressure_basis_points matches Some(value) && value > 0);
            if contends && windowed->0 != PerformanceControlLevel::ShutdownRequested {
                fullscreen->0.spec_rank() == windowed->0.spec_rank() + 1
            } else {
                fullscreen == windowed
            }
        }),
{
}

/// An escalation is put down to the full screen where that contends, else to
/// other programs where their pressure asks for more than the responsiveness
/// does, and to the responsiveness otherwise.
pub proof fn law_escalation_names_its_cause(observation: PerformanceControlObservation)
    ensures
        ({
            let reason = escalation_reason(observation);
            let contends = observation.foreground_fullscreen
                && observation.host_responsiveness_basis_points is Some && (
            observation.third_party_pressure_basis_points matches Some(value) && value > 0);
            &&& reason == PerformanceControlReason::FullscreenContention <==> contends
            &&& reason == PerformanceControlReason::ThirdPartyContention ==> (
            observation.third_party_pressure_basis_points matches Some(value) && value > 1_000 && (
            observation.host_responsiveness_basis_points matches Some(response)
                ==> level_for_pressure(value).spec_rank() > level_for_responsiveness(
                response,
            ).spec_rank()))
            &&& reason == PerformanceControlReason::ResponsivenessPressure && (
            observation.third_party_pressure_basis_points matches Some(value) && value > 1_000)
                ==> (observation.host_responsiveness_basis_points matches Some(response)
                && level_for_pressure(
                observation.third_party_pressure_basis_points->0,
            ).spec_rank() <= level_for_responsiveness(response).spec_rank())
        }),
{
}

/// The times of a controller can be told.
pub open spec fn times_fit(
    controller: ControllerView,
    observation: PerformanceControlObservation,
) -> bool {
    &&& controller.config.clock_jump_threshold.millis <= u64::MAX
    &&& observation.observed_at_unix_ms + controller.config.transition_cooldown.millis <= u64::MAX
}

/// How many samples in a row ask for a level, with one that asks for it now.
pub open spec fn samples_with(
    controller: ControllerView,
    level: PerformanceControlLevel,
) -> int {
    if controller.candidate_level != Some(level) {
        1
    } else if controller.candidate_samples == u16::MAX {
        u16::MAX as int
    } else {
        controller.candidate_samples + 1
    }
}

/// The host moves exactly when enough samples in a row ask for another level,
/// as many as the direction needs, and the cooldown is over; it moves one step
/// towards that level, tells of it, starts a new cooldown and counts anew.
/// Otherwise the sample is counted and nothing else happens.
pub proof fn law_enough_samples_move_the_host(
    controller: ControllerView,
    observation: PerformanceControlObservation,
    target: PerformanceControlLevel,
)
    requires
        times_fit(controller, observation),
        !controller.clock_jumped(observation),
        asked_level(observation) == Some(target),
        target != controller.level,
    ensures
        ({
            let (after, step) = controller.after_observation(observation);
            let up = target.spec_rank() > controller.level.spec_rank();
            let needed = if up {
                controller.config.escalation_samples
            } else {
                controller.config.recovery_samples
            };
            let at = observation.observed_at_unix_ms;
            let moves = samples_with(controller, target) >= needed && at
                >= controller.cooldown_until_unix_ms;
            &&& step is Ok
            &&& after.last_observation == Some(observation) && after.last_observed_at_unix_ms
                == Some(at)
            &&& after.config == controller.config
            &&& if moves {
                &&& after.level.spec_rank() == controller.level.spec_rank() + if up {
                    1int
                } else {
                    -1
                }
                &&& after.cooldown_until_unix_ms == at
                    + controller.config.transition_cooldown.millis
                &&& after.candidate_level is None && after.candidate_samples == 0
                &&& step->Ok_0.len() >= 1
                &&& step->Ok_0[0].instance_id is None
                &&& step->Ok_0[0].previous_level == controller.level && step->Ok_0[0].level
                    == after.level
                &&& step->Ok_0[0].recovery == !up
                &&& step->Ok_0[0].observed_at_unix_ms == at
                &&& step->Ok_0[0].reason == if up {
                    escalation_reason(observation)
                } else {
                    PerformanceControlReason::Recovery
                }
            } else {
                &&& after.level == controller.level
                &&& after.instance_levels == controller.instance_levels
                &&& after.cooldown_until_unix_ms == controller.cooldown_until_unix_ms
                &&& after.candidate_level == Some(target) && after.candidate_samples
                    == samples_with(controller, target)
                &&& step->Ok_0.len() == 0
            }
        }),
{
    let (after, step) = controller.after_observation(observation);
    law_levels_are_in_order(controller.level.spec_rank());
    assert(levels_in_order()[controller.level.spec_rank()] == controller.level);
}

/// An observation that measures nothing, and one that asks for the level the
/// host has, move neither the host nor the evidence of an earlier level: what
/// was counted for another level is dropped.
pub proof fn law_unwanted_evidence_is_dropped(
    controller: ControllerView,
    observation: PerformanceControlObservation,
)
    requires
        times_fit(controller, observation),
        !controller.clock_jumped(observation),
        asked_level(observation) is None || asked_level(observation) == Some(controller.level),
    ensures
        ({
            let (after, step) = controller.after_observation(observation);
            &&& step is Ok
            &&& after.level == controller.level
            &&& after.candidate_level is None
            &&& asked_level(observation) is None || controller.level
                != PerformanceControlLevel::Normal ==> after.candidate_samples == 0
                && after.instance_levels == controller.instance_levels && step->Ok_0.len() == 0
        }),
{
}

/// On the way up every instance below the host's new level is raised to it,
/// and the others stay; no instance joins or leaves.
pub proof fn law_escalation_takes_the_instances_along(
    controller: ControllerView,
    observation: PerformanceControlObservation,
    id: Seq<char>,
)
    requires
        controller.after_observation(observation).0.level.spec_rank()
            > controller.level.spec_rank(),
        controller.instance_levels.contains_key(id),
    ensures
        ({
            let after = controller.after_observation(observation).0;
            let before = controller.instance_levels[id];
            &&& after.instance_levels.contains_key(id)
            &&& after.instance_levels[id] == if before.spec_rank() < after.level.spec_rank() {
                after.level
            } else {
                before
            }
        }),
{
    law_levels_are_in_order(controller.level.spec_rank());
    assert(levels_in_order()[controller.level.spec_rank()] == controller.level);
}

/// When the host recovers a step, the first instance by name that still stands
/// above it comes down a step with it, and that is told too; where none does,
/// only the host's own step is told.
pub proof fn law_recovery_releases_the_first_instance(
    controller: ControllerView,
    observation: PerformanceControlObservation,
    id: Seq<char>,
)
    requires
        controller.after_observation(observation).0.level.spec_rank()
            < controller.level.spec_rank(),
        is_first_above(
            controller.instance_levels,
            controller.after_observation(observation).0.level,
            id,
        ),
    ensures
        ({
            let (after, step) = controller.after_observation(observation);
            let before = controller.instance_levels[id];
            &&& step is Ok && step->Ok_0.len() == 2
            &&& step->Ok_0[1].instance_id == Some(id) && step->Ok_0[1].recovery
            &&& step->Ok_0[1].previous_level == before && step->Ok_0[1].level
                == after.instance_levels[id]
            &&& after.instance_levels[id].spec_rank() == before.spec_rank() - 1
        }),
{
    let after = controller.after_observation(observation).0;
    law_levels_are_in_order(controller.level.spec_rank());
    assert(levels_in_order()[controller.level.spec_rank()] == controller.level);
    lemma_first_above_unique(controller.instance_levels, after.level, id);
}

/// At the normal level, with the cooldown over and enough calm samples in a
/// row, the first instance by name above the host comes down a step and a new
/// cooldown starts.
pub proof fn law_calm_host_releases_an_instance(
    controller: ControllerView,
    observation: PerformanceControlObservation,
    id: Seq<char>,
)
    requires
        times_fit(controller, observation),
        !controller.clock_jumped(observation),
        asked_level(observation) == Some(PerformanceControlLevel::Normal),
        controller.level == PerformanceControlLevel::Normal,
        observation.observed_at_unix_ms >= controller.cooldown_until_unix_ms,
        is_first_above(controller.instance_levels, PerformanceControlLevel::Normal, id),
    ensures
        ({
            let (after, step) = controller.after_observation(observation);
            let before = controller.instance_levels[id];
            &&& step is Ok
            &&& if controller.candidate_samples + 1 >= controller.config.recovery_samples {
                &&& after.instance_levels[id].spec_rank() == before.spec_rank() - 1
                &&& after.cooldown_until_unix_ms == observation.observed_at_unix_ms
                    + controller.config.transition_cooldown.millis
                &&& after.candidate_samples == 0
                &&& step->Ok_0.len() == 1 && step->Ok_0[0].instance_id == Some(id)
            } else {
                &&& after.instance_levels == controller.instance_levels
                &&& after.candidate_samples == controller.candidate_samples + 1
                &&& step->Ok_0.len() == 0
            }
        }),
{
    lemma_first_above_unique(controller.instance_levels, PerformanceControlLevel::Normal, id);
    assert(controller.instance_levels.contains_key(id));
    assert(any_above(controller.instance_levels, controller.level));
    law_levels_are_in_order(controller.instance_levels[id].spec_rank());
    assert(levels_in_order()[controller.instance_levels[id].spec_rank()]
        == controller.instance_levels[id]);
}

/// The clock jumped exactly where it went back, or on by more than the
/// threshold, since the last observation; the first observation is no jump. A
/// jump starts a cooldown and is told as one, with no level changed.
pub proof fn law_clock_jump_starts_a_cooldown(
    controller: ControllerView,
    observation: PerformanceControlObservation,
)
    requires
        times_fit(controller, observation),
    ensures
        controller.clock_jumped(observation) <==> (controller.last_observed_at_unix_ms
            matches Some(last) && (observation.observed_at_unix_ms < last
            || observation.observed_at_unix_ms > last
            + controller.config.clock_jump_threshold.millis)),
        controller.clock_jumped(observation) ==> {
            let (after, step) = controller.after_observation(observation);
            &&& after.cooldown_until_unix_ms == observation.observed_at_unix_ms
                + controller.config.transition_cooldown.millis
            &&& step is Ok && step->Ok_0.len() == 1
            &&& step->Ok_0[0].reason == PerformanceControlReason::ClockJump
            &&& step->Ok_0[0].level == controller.level && step->Ok_0[0].previous_level
                == controller.level
        },
{
}

/// A dispatch passes exactly while the host is at the normal level, however
/// urgent it is; an urgent one that does not is told of, the most urgent as a
/// failure of capacity.
pub proof fn law_contended_host_defers_dispatches(
    gate: PerformanceDispatchGate,
    controller: ControllerView,
    instance_id: Seq<char>,
    urgency_milli: u16,
    observed_at_unix_ms: u64,
)
    requires
        gate_is(gate, controller, instance_id, urgency_milli, observed_at_unix_ms),
    ensures
        gate is Allowed <==> controller.level.spec_rank() == 0,
        gate matches PerformanceDispatchGate::Deferred { reason, deadline_disposition, event } ==> {
            &&& event is Some <==> urgency_milli >= 750
            &&& deadline_disposition is Some <==> urgency_milli >= 750
            &&& deadline_disposition == Some(PerformanceDeadlineDisposition::CapacityFailure)
                <==> urgency_milli >= 950
            &&& reason == "performance_capacity_deadline_conflict" ==> urgency_milli >= 950
            &&& event matches Some(data) ==> data@.instance_id == Some(instance_id)
                && data@.observed_at_unix_ms == observed_at_unix_ms
                && data@.deadline_disposition == deadline_disposition && data@.level
                == controller.level && data@.previous_level == controller.level
        },
{
    reveal_strlit("performance_capacity_deadline_conflict");
    reveal_strlit("performance_contention_dispatch_deferred");
    assert("performance_capacity_deadline_conflict"@.len() == 38);
    assert("performance_contention_dispatch_deferred"@.len() == 40);
}

/// An instance is held to its own level where that is above the host's, and to
/// the host's otherwise.
pub proof fn law_instance_is_held_to_the_higher_level(
    controller: ControllerView,
    instance_id: Seq<char>,
)
    ensures
        ({
            let level = instance_level(controller, instance_id);
            let own = controller.instance_levels[instance_id];
            &&& level.spec_rank() >= controller.level.spec_rank()
            &&& controller.instance_levels.contains_key(instance_id) ==> level.spec_rank()
                >= own.spec_rank()
            &&& level == controller.level || (controller.instance_levels.contains_key(instance_id)
                && level == own)
        }),
{
}

/// A higher level never asks less of an instance, and each demand begins at
/// its own level.
pub proof fn law_directives_grow_with_the_level(
    lower: PerformanceControlDirective,
    higher: PerformanceControlDirective,
    instance_id: Seq<char>,
    first: PerformanceControlLevel,
    second: PerformanceControlLevel,
)
    requires
        directive_is(lower, instance_id, first),
        directive_is(higher, instance_id, second),
        first.spec_rank() <= second.spec_rank(),
    ensures
        lower.throttle_delay_ms <= higher.throttle_delay_ms,
        lower.yield_requested ==> higher.yield_requested,
        lower.qos_reduced ==> higher.qos_reduced,
        lower.suspend_requested ==> higher.suspend_requested,
        lower.shutdown_requested ==> higher.shutdown_requested,
        lower.level == first && lower.instance_id@ == instance_id,
        lower.throttle_delay_ms > 0 <==> first != PerformanceControlLevel::Normal && first
            != PerformanceControlLevel::DispatchPaused,
        first == PerformanceControlLevel::Throttled ==> lower.throttle_delay_ms == 50
            && !lower.yield_requested,
        first == PerformanceControlLevel::YieldRequested ==> lower.throttle_delay_ms == 100
            && lower.yield_requested && !lower.qos_reduced,
        first == PerformanceControlLevel::QosReduced ==> lower.throttle_delay_ms == 150
            && lower.qos_reduced && !lower.suspend_requested,
        first == PerformanceControlLevel::Suspended ==> lower.throttle_delay_ms == 200
            && lower.suspend_requested && !lower.shutdown_requested,
        first == PerformanceControlLevel::ShutdownRequested ==> lower.throttle_delay_ms == 250
            && lower.shutdown_requested,
{
}

/// A higher level never leaves more of a budget; the two lowest leave all of
/// it and the highest none.
pub proof fn law_budget_shrinks_with_the_level(
    lower: PerformanceControlLevel,
    higher: PerformanceControlLevel,
)
    requires
        lower.spec_rank() <= higher.spec_rank(),
    ensures
        budget_factor_milli(higher) <= budget_factor_milli(lower),
        0 <= budget_factor_milli(lower) <= 1_000,
        budget_factor_milli(lower) == 1_000 <==> lower.spec_rank() <= 1,
        budget_factor_milli(lower) == 0 <==> lower.spec_rank() == 6,
        lower == PerformanceControlLevel::Throttled ==> budget_factor_milli(lower) * 4 == 3_000,
        lower == PerformanceControlLevel::YieldRequested ==> budget_factor_milli(lower) * 5
            == 3_000,
        lower == PerformanceControlLevel::QosReduced ==> budget_factor_milli(lower) * 2 == 1_000,
        lower == PerformanceControlLevel::Suspended ==> budget_factor_milli(lower) * 4 == 1_000,
{
}

/// A scaled budget is the largest that does not exceed its share.
pub proof fn law_scaled_budget_is_its_share(value: u16, factor_milli: int)
    requires
        0 <= factor_milli <= 1_000,
    ensures
        scaled(value, factor_milli) * 1_000 <= value * factor_milli,
        value * factor_milli < (scaled(value, factor_milli) + 1) * 1_000,
        factor_milli == 1_000 ==> scaled(value, factor_milli) == value,
        factor_milli == 0 ==> scaled(value, factor_milli) == 0,
{
    let product = value * factor_milli;
    assert(product / 1_000 * 1_000 <= product < (product / 1_000 + 1) * 1_000);
}

/// Under contention a host may run no more heavy dispatches than without, and
/// never counts more of them as active than it may run; what no observation
/// measured stays as it was.
pub proof fn law_overlay_restricts_the_host(
    controller: ControllerView,
    heavy_count: nat,
    before: HostResourceSnapshot,
    after: HostResourceSnapshot,
)
    requires
        controller.config.valid(),
        overlaid(controller, heavy_count, before, after),
    ensures
        after.cpu_available_milli <= before.cpu_available_milli,
        after.gpu_available_milli <= before.gpu_available_milli,
        after.io_available_milli <= before.io_available_milli,
        controller.level == PerformanceControlLevel::Normal ==> after.cpu_available_milli
            == before.cpu_available_milli && after.gpu_available_milli
            == before.gpu_available_milli && after.io_available_milli
            == before.io_available_milli && after.heavy_dispatch_limit
            == controller.config.normal_heavy_dispatch_limit,
        controller.level != PerformanceControlLevel::Normal ==> after.heavy_dispatch_limit
            == controller.config.pressured_heavy_dispatch_limit,
        after.heavy_dispatch_limit <= controller.config.normal_heavy_dispatch_limit,
        after.active_heavy_dispatches <= after.heavy_dispatch_limit,
        heavy_count <= after.heavy_dispatch_limit ==> after.active_heavy_dispatches == heavy_count,
        controller.last_observation is None ==> after.host_responsiveness_basis_points
            == before.host_responsiveness_basis_points && after.third_party_pressure_basis_points
            == before.third_party_pressure_basis_points,
        controller.last_observation matches Some(observation) ==> {
            &&& observation.host_responsiveness_basis_points matches Some(value)
                ==> after.host_responsiveness_basis_points == value
            &&& observation.third_party_pressure_basis_points matches Some(value)
                ==> after.third_party_pressure_basis_points == value
        },
{
    let factor = budget_factor_milli(controller.level);
    law_budget_shrinks_with_the_level(controller.level, controller.level);
    law_scaled_budget_is_its_share(before.cpu_available_milli, factor);
    law_scaled_budget_is_its_share(before.gpu_available_milli, factor);
    law_scaled_budget_is_its_share(before.io_available_milli, factor);
    assert(before.cpu_available_milli * factor <= before.cpu_available_milli * 1_000
        && before.gpu_available_milli * factor <= before.gpu_available_milli * 1_000
        && before.io_available_milli * factor <= before.io_available_milli * 1_000)
        by (nonlinear_arith)
        requires
            0 <= factor <= 1_000,
            0 <= before.cpu_available_milli,
            0 <= before.gpu_available_milli,
            0 <= before.io_available_milli,
    ;
}

/// Each heavy workload counts once: one more adds one, and one that is not
/// heavy adds nothing.
pub proof fn law_heavy_workloads_are_counted(
    workloads: Seq<PerformanceControlWorkload>,
    workload: PerformanceControlWorkload,
)
    ensures
        heavy_workloads(workloads.push(workload)) == heavy_workloads(workloads) + if match
            workload.load_profile {
            LoadProfile::Heavy => true,
            LoadProfile::Light => false,
            LoadProfile::Weighted { cpu_milli, gpu_milli, io_milli } => cpu_milli as int + gpu_milli
                as int + io_milli as int >= 1_500,
        } {
            1nat
        } else {
            0
        },
        heavy_workloads(Seq::empty()) == 0,
{
    assert(workloads.push(workload).drop_last() =~= workloads);
}

/// Exactly the working instances are tracked; one that was tracked keeps its
/// level, and a newcomer starts at the host's.
pub proof fn law_working_instances_are_tracked(
    levels: InstanceLevels,
    level: PerformanceControlLevel,
    ids: Seq<Seq<char>>,
    id: Seq<char>,
)
    ensures
        synced(levels, level, ids).contains_key(id) <==> exists|i: int|
            0 <= i < ids.len() && #[trigger] ids[i] == id,
        ids.contains(id) ==> synced(levels, level, ids)[id] == if levels.contains_key(id) {
            levels[id]
        } else {
            level
        },
{
}

/// An observation is taken only with a time and with measurements that are
/// shares of a whole.
pub proof fn law_observations_are_shares(observation: PerformanceControlObservation)
    ensures
        observation.valid() <==> {
            &&& observation.observed_at_unix_ms != 0
            &&& observation.host_responsiveness_basis_points is None
                || observation.host_responsiveness_basis_points->0 <= 10_000
            &&& observation.third_party_pressure_basis_points is None
                || observation.third_party_pressure_basis_points->0 <= 10_000
        },
{
}

/// A workload that joins starts at the host's level, and one that is known
/// keeps its own.
pub proof fn law_joining_instance_takes_the_hosts_level(
    levels: InstanceLevels,
    level: PerformanceControlLevel,
    ids: Seq<Seq<char>>,
    id: Seq<char>,
)
    ensures
        levels.contains_key(id) ==> joined(levels, level, ids).contains_key(id) && joined(
            levels,
            level,
            ids,
        )[id] == levels[id],
        !levels.contains_key(id) && ids.contains(id) ==> joined(levels, level, ids).contains_key(id)
            && joined(levels, level, ids)[id] == level,
        !levels.contains_key(id) && !ids.contains(id) ==> !joined(levels, level, ids).contains_key(
            id,
        ),
{
}

} // verus!
