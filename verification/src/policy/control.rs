//! Failure, activity-window, and loop-budget state.

use vstd::prelude::*;

use crate::digest::seed_of;
use crate::error::{RuntimeHostError, RuntimeHostResult};
use crate::ordered_map::{OrderedKey, OrderedMap};
use crate::performance::monitor::{ContextView, PerformanceContext};
use crate::policy::activity::{
    active_activity_window, activity_seed, interval_for, law_first_open_window_counts,
    law_interval_within_bounds, open_day, open_window, sampled_interval, seed_material,
    window_closed, window_name,
};
use crate::policy::catalog::{
    fatal, policy_fatal, policy_request, profile_named, request, task_named, ActivityProfile,
    DispatchIntent, IntentView, PolicyCatalog, TaskSpec,
};
use crate::search::lemma_position;
use crate::text::same_text;

verus! {

/// A task or a profile, an instance and a local day.
pub type DayKey = (String, (String, i64));

/// A task or a profile, an instance and the name of a window.
pub type WindowKey = (String, (String, String));

/// Two names.
pub type PairKey = (String, String);

#[derive(Debug, Clone, Copy, PartialEq, Eq, Structural)]
pub enum PolicyFailureClass {
    Recoverable,
    Severe,
}

#[derive(Debug, Clone, Copy, PartialEq, Eq, Structural)]
pub enum PolicyFailureDisposition {
    RetryScheduled,
    Continue,
    PausedTask,
}

/// How an execution ended, as reported.
#[derive(Debug, Clone, PartialEq, Eq)]
pub enum PolicyExecutionInput {
    Succeeded,
    Failed { error_code: String, class: PolicyFailureClass },
}

/// The value of a report.
pub enum InputView {
    Succeeded,
    Failed { error_code: Seq<char>, class: PolicyFailureClass },
}

impl View for PolicyExecutionInput {
    type V = InputView;

    open spec fn view(&self) -> InputView {
        match *self {
            PolicyExecutionInput::Succeeded => InputView::Succeeded,
            PolicyExecutionInput::Failed { error_code, class } => InputView::Failed {
                error_code: error_code@,
                class,
            },
        }
    }
}

/// Failures of a task in a row that are alike.
#[derive(Debug, Clone, PartialEq, Eq)]
pub struct FailureStreak {
    pub error_code: String,
    pub class: PolicyFailureClass,
    pub count: u16,
    pub escalation_streak: u16,
}

/// The value of a streak.
pub struct StreakView {
    pub error_code: Seq<char>,
    pub class: PolicyFailureClass,
    pub count: u16,
    pub escalation_streak: u16,
}

impl View for FailureStreak {
    type V = StreakView;

    open spec fn view(&self) -> StreakView {
        StreakView {
            error_code: self.error_code@,
            class: self.class,
            count: self.count,
            escalation_streak: self.escalation_streak,
        }
    }
}

/// When and in which window an admission was drawn.
#[derive(Debug, Clone, PartialEq, Eq)]
pub struct PolicyActivitySample {
    pub profile_id: String,
    pub local_day: i64,
    pub window_id: String,
    pub admitted_at_unix_ms: u64,
    pub seed: u64,
    pub interval_ms: u64,
    pub next_eligible_unix_ms: u64,
}

/// The value of a sample.
pub struct SampleView {
    pub profile_id: Seq<char>,
    pub local_day: i64,
    pub window_id: Seq<char>,
    pub admitted_at_unix_ms: u64,
    pub seed: u64,
    pub interval_ms: u64,
    pub next_eligible_unix_ms: u64,
}

impl View for PolicyActivitySample {
    type V = SampleView;

    open spec fn view(&self) -> SampleView {
        SampleView {
            profile_id: self.profile_id@,
            local_day: self.local_day,
            window_id: self.window_id@,
            admitted_at_unix_ms: self.admitted_at_unix_ms,
            seed: self.seed,
            interval_ms: self.interval_ms,
            next_eligible_unix_ms: self.next_eligible_unix_ms,
        }
    }
}

/// What an admission leaves of each budget.
#[derive(Debug, Clone, Copy, PartialEq, Eq, Structural)]
pub struct PolicyBudgetReceipt {
    pub task_daily_used: u32,
    pub task_daily_limit: u32,
    pub task_window_used: u32,
    pub task_window_limit: u32,
    pub task_runtime_reserved_ms: u64,
    pub task_runtime_limit_ms: u64,
    pub activity_daily_used: u32,
    pub activity_daily_limit: u32,
    pub activity_window_used: u32,
    pub activity_window_limit: u32,
    pub activity_runtime_reserved_ms: u64,
    pub activity_runtime_limit_ms: u64,
}

#[derive(Debug, Clone, PartialEq, Eq)]
pub struct PolicyAdmissionRecord {
    pub activity: PolicyActivitySample,
    pub budget: PolicyBudgetReceipt,
}

/// The value of an admission.
pub struct AdmissionView {
    pub activity: SampleView,
    pub budget: PolicyBudgetReceipt,
}

impl View for PolicyAdmissionRecord {
    type V = AdmissionView;

    open spec fn view(&self) -> AdmissionView {
        AdmissionView { activity: self.activity@, budget: self.budget }
    }
}

#[derive(Debug, Clone)]
pub struct PolicyFailureRecord {
    pub error_code: String,
    pub reported_success: bool,
    pub original_class: PolicyFailureClass,
    pub effective_class: PolicyFailureClass,
    pub consecutive_same_error: u16,
    pub escalation_streak: u16,
    pub performance_tax_exempt: bool,
    pub retry_attempt: u16,
    pub disposition: PolicyFailureDisposition,
    pub retry_at_unix_ms: Option<u64>,
    pub runtime_ms: u64,
    pub sensitive: bool,
    pub perf_context: Box<PerformanceContext>,
}

/// The value of a failure.
pub struct FailureView {
    pub error_code: Seq<char>,
    pub reported_success: bool,
    pub original_class: PolicyFailureClass,
    pub effective_class: PolicyFailureClass,
    pub consecutive_same_error: u16,
    pub escalation_streak: u16,
    pub performance_tax_exempt: bool,
    pub retry_attempt: u16,
    pub disposition: PolicyFailureDisposition,
    pub retry_at_unix_ms: Option<u64>,
    pub runtime_ms: u64,
    pub sensitive: bool,
    pub perf_context: ContextView,
}

impl View for PolicyFailureRecord {
    type V = FailureView;

    open spec fn view(&self) -> FailureView {
        FailureView {
            error_code: self.error_code@,
            reported_success: self.reported_success,
            original_class: self.original_class,
            effective_class: self.effective_class,
            consecutive_same_error: self.consecutive_same_error,
            escalation_streak: self.escalation_streak,
            performance_tax_exempt: self.performance_tax_exempt,
            retry_attempt: self.retry_attempt,
            disposition: self.disposition,
            retry_at_unix_ms: self.retry_at_unix_ms,
            runtime_ms: self.runtime_ms,
            sensitive: self.sensitive,
            perf_context: self.perf_context@,
        }
    }
}

#[derive(Debug, Clone)]
pub enum PolicyExecutionOutcome {
    Succeeded { runtime_ms: u64 },
    Failed { failure: PolicyFailureRecord },
}

/// The value of an outcome.
pub enum OutcomeView {
    Succeeded { runtime_ms: u64 },
    Failed { failure: FailureView },
}

impl View for PolicyExecutionOutcome {
    type V = OutcomeView;

    open spec fn view(&self) -> OutcomeView {
        match *self {
            PolicyExecutionOutcome::Succeeded { runtime_ms } => OutcomeView::Succeeded {
                runtime_ms,
            },
            PolicyExecutionOutcome::Failed { failure } => OutcomeView::Failed { failure: failure@ },
        }
    }
}

#[derive(Debug, Clone)]
pub struct PolicyExecutionEventData {
    pub decision_id: String,
    pub task_id: String,
    pub instance_id: String,
    pub observed_at_unix_ms: u64,
    pub outcome: PolicyExecutionOutcome,
}

/// The value of an execution record.
pub struct ExecutionView {
    pub decision_id: Seq<char>,
    pub task_id: Seq<char>,
    pub instance_id: Seq<char>,
    pub observed_at_unix_ms: u64,
    pub outcome: OutcomeView,
}

impl View for PolicyExecutionEventData {
    type V = ExecutionView;

    open spec fn view(&self) -> ExecutionView {
        ExecutionView {
            decision_id: self.decision_id@,
            task_id: self.task_id@,
            instance_id: self.instance_id@,
            observed_at_unix_ms: self.observed_at_unix_ms,
            outcome: self.outcome@,
        }
    }
}

/// Runtime-owned failure, activity-window, and loop-budget state.
pub struct PolicyControlState {
    pub task_daily: OrderedMap<DayKey, u32>,
    pub task_window: OrderedMap<WindowKey, u32>,
    pub task_runtime: OrderedMap<WindowKey, u64>,
    pub activity_daily: OrderedMap<DayKey, u32>,
    pub activity_window: OrderedMap<WindowKey, u32>,
    pub activity_runtime: OrderedMap<WindowKey, u64>,
    pub next_activity_eligible: OrderedMap<PairKey, u64>,
    pub failure_streaks: OrderedMap<PairKey, FailureStreak>,
}

/// What a day key stands for.
pub type DayId = (Seq<char>, (Seq<char>, i64));

/// What a window key stands for.
pub type WindowId = (Seq<char>, (Seq<char>, Seq<char>));

/// What a pair of names stands for.
pub type PairId = (Seq<char>, Seq<char>);

/// The value of the state.
pub struct ControlView {
    pub task_daily: Map<DayId, u32>,
    pub task_window: Map<WindowId, u32>,
    pub task_runtime: Map<WindowId, u64>,
    pub activity_daily: Map<DayId, u32>,
    pub activity_window: Map<WindowId, u32>,
    pub activity_runtime: Map<WindowId, u64>,
    pub next_activity_eligible: Map<PairId, u64>,
    pub failure_streaks: Map<PairId, StreakView>,
}

impl View for PolicyControlState {
    type V = ControlView;

    open spec fn view(&self) -> ControlView {
        ControlView {
            task_daily: self.task_daily@,
            task_window: self.task_window@,
            task_runtime: self.task_runtime@,
            activity_daily: self.activity_daily@,
            activity_window: self.activity_window@,
            activity_runtime: self.activity_runtime@,
            next_activity_eligible: self.next_activity_eligible@,
            failure_streaks: self.failure_streaks@.map_values(|streak: FailureStreak| streak@),
        }
    }
}

/// What a map holds under a key, `zero` where it holds nothing.
pub open spec fn held<Id, N>(map: Map<Id, N>, id: Id, zero: N) -> N {
    if map.contains_key(id) {
        map[id]
    } else {
        zero
    }
}

fn held_count<K: OrderedKey>(map: &OrderedMap<K, u32>, key: &K) -> (count: u32)
    requires
        map.wf(),
    ensures
        count == held(map@, key.id(), 0u32),
{
    match map.get(key) {
        Some(count) => *count,
        None => 0,
    }
}

fn held_runtime<K: OrderedKey>(map: &OrderedMap<K, u64>, key: &K) -> (runtime: u64)
    requires
        map.wf(),
    ensures
        runtime == held(map@, key.id(), 0u64),
{
    match map.get(key) {
        Some(runtime) => *runtime,
        None => 0,
    }
}

pub open spec fn counter_overflow() -> RuntimeHostError {
    policy_fatal("policy_budget_counter_overflow", "reserve_policy_budget")
}

pub open spec fn budget_exhausted() -> RuntimeHostError {
    policy_request("policy_budget_exhausted", "reserve_policy_budget")
}

/// A counter after one more use.
pub open spec fn counted(current: u32, limit: u32) -> Result<u32, RuntimeHostError> {
    if current == u32::MAX {
        Err(counter_overflow())
    } else if current + 1 > limit {
        Err(budget_exhausted())
    } else {
        Ok((current + 1) as u32)
    }
}

/// A runtime after one more reservation.
pub open spec fn reserved(current: u64, reservation: u64, limit: u64) -> Result<
    u64,
    RuntimeHostError,
> {
    if current + reservation > u64::MAX {
        Err(counter_overflow())
    } else if current + reservation > limit {
        Err(budget_exhausted())
    } else {
        Ok((current + reservation) as u64)
    }
}

pub fn next_count(current: u32, limit: u32) -> (result: RuntimeHostResult<u32>)
    ensures
        result == counted(current, limit),
{
    match current.checked_add(1) {
        None => Err(fatal("policy_budget_counter_overflow", "reserve_policy_budget")),
        Some(next) => {
            if next > limit {
                Err(request("policy_budget_exhausted", "reserve_policy_budget"))
            } else {
                Ok(next)
            }
        },
    }
}

pub fn next_runtime(current: u64, reservation: u64, limit: u64) -> (result: RuntimeHostResult<u64>)
    ensures
        result == reserved(current, reservation, limit),
{
    match current.checked_add(reservation) {
        None => Err(fatal("policy_budget_counter_overflow", "reserve_policy_budget")),
        Some(next) => {
            if next > limit {
                Err(request("policy_budget_exhausted", "reserve_policy_budget"))
            } else {
                Ok(next)
            }
        },
    }
}

/// Where the catalog holds the task and the profile of an intent.
pub open spec fn located(catalog: PolicyCatalog, intent: IntentView) -> Result<
    (int, int),
    RuntimeHostError,
> {
    match catalog.task_position(intent.task_id) {
        None => Err(policy_request("policy_task_missing", "resolve_policy_control")),
        Some(task) => match catalog.profile_position(intent.prerequisites.activity_profile_id) {
            None => Err(
                policy_request("policy_activity_profile_missing", "resolve_policy_control"),
            ),
            Some(profile) => Ok((task, profile)),
        },
    }
}

pub fn task_and_profile(catalog: &PolicyCatalog, intent: &DispatchIntent) -> (result:
    RuntimeHostResult<(usize, usize)>)
    ensures
        match located(*catalog, intent@) {
            Ok((task, profile)) => result matches Ok(found) && found.0 == task && found.1
                == profile && found.0 < catalog.tasks@.len() && found.1 < catalog.profiles@.len()
                && catalog.tasks@[task].id@ == intent.task_id@ && catalog.profiles@[profile].id@
                == intent.prerequisites.activity_profile_id@,
            Err(error) => result matches Err(actual) && actual == error,
        },
{
    let task: usize = match catalog.find_task(intent.task_id.as_str()) {
        Some(index) => index,
        None => {
            return Err(request("policy_task_missing", "resolve_policy_control"));
        },
    };
    let profile: usize = match catalog.find_profile(
        intent.prerequisites.activity_profile_id.as_str(),
    ) {
        Some(index) => index,
        None => {
            return Err(request("policy_activity_profile_missing", "resolve_policy_control"));
        },
    };
    Ok((task, profile))
}

/// The seed that an intent draws at a time.
pub open spec fn drawn_seed(catalog: PolicyCatalog, intent: IntentView, now_unix_ms: u64) ->
    u64 {
    let profile = catalog.profiles@[located(catalog, intent)->Ok_0.1];
    let (day, index) = open_window(profile, now_unix_ms)->0;
    seed_of(seed_material(intent.decision_id, profile.id@, window_name(profile.id@, day, index)))
        as u64
}

impl ControlView {
    /// What every budget is once the intent has been charged to it.
    pub open spec fn charged(
        self,
        task: TaskSpec,
        profile: ActivityProfile,
        intent: IntentView,
        day: i64,
        window_id: Seq<char>,
    ) -> Result<PolicyBudgetReceipt, RuntimeHostError> {
        let task_window = (intent.task_id, (intent.instance_id, window_id));
        let activity_window = (profile.id@, (intent.instance_id, window_id));
        let task_daily_used = counted(
            held(self.task_daily, (intent.task_id, (intent.instance_id, day)), 0),
            task.loop_budget.daily_limit,
        );
        let task_window_used = counted(
            held(self.task_window, task_window, 0),
            task.loop_budget.window_iteration_limit,
        );
        let task_runtime_reserved = reserved(
            held(self.task_runtime, task_window, 0),
            intent.expected_duration_ms,
            task.loop_budget.max_runtime_ms,
        );
        let activity_daily_used = counted(
            held(self.activity_daily, (profile.id@, (intent.instance_id, day)), 0),
            profile.daily_budget,
        );
        let activity_window_used = counted(
            held(self.activity_window, activity_window, 0),
            profile.max_window_iterations,
        );
        let activity_runtime_reserved = reserved(
            held(self.activity_runtime, activity_window, 0),
            intent.expected_duration_ms,
            profile.session_max_ms,
        );
        if task_daily_used is Err {
            Err(task_daily_used->Err_0)
        } else if task_window_used is Err {
            Err(task_window_used->Err_0)
        } else if task_runtime_reserved is Err {
            Err(task_runtime_reserved->Err_0)
        } else if activity_daily_used is Err {
            Err(activity_daily_used->Err_0)
        } else if activity_window_used is Err {
            Err(activity_window_used->Err_0)
        } else if activity_runtime_reserved is Err {
            Err(activity_runtime_reserved->Err_0)
        } else {
            Ok(
                PolicyBudgetReceipt {
                    task_daily_used: task_daily_used->Ok_0,
                    task_daily_limit: task.loop_budget.daily_limit,
                    task_window_used: task_window_used->Ok_0,
                    task_window_limit: task.loop_budget.window_iteration_limit,
                    task_runtime_reserved_ms: task_runtime_reserved->Ok_0,
                    task_runtime_limit_ms: task.loop_budget.max_runtime_ms,
                    activity_daily_used: activity_daily_used->Ok_0,
                    activity_daily_limit: profile.daily_budget,
                    activity_window_used: activity_window_used->Ok_0,
                    activity_window_limit: profile.max_window_iterations,
                    activity_runtime_reserved_ms: activity_runtime_reserved->Ok_0,
                    activity_runtime_limit_ms: profile.session_max_ms,
                },
            )
        }
    }

    /// The profile rests on the instance.
    pub open spec fn resting(
        self,
        instance_id: Seq<char>,
        profile_id: Seq<char>,
        now_unix_ms: u64,
    ) -> bool {
        now_unix_ms < held(self.next_activity_eligible, (instance_id, profile_id), 0)
    }

    /// The admission of an intent to an open window, for a seed.
    pub open spec fn window_admission(
        self,
        task: TaskSpec,
        profile: ActivityProfile,
        intent: IntentView,
        now_unix_ms: u64,
        day: i64,
        window_id: Seq<char>,
        seed: u64,
    ) -> Result<AdmissionView, RuntimeHostError> {
        match interval_for(profile, seed) {
            None => Err(
                policy_fatal("policy_activity_interval_invalid", "sample_activity_interval"),
            ),
            Some(interval) => if now_unix_ms + interval > u64::MAX {
                Err(policy_fatal("policy_activity_time_overflow", "reserve_policy_budget"))
            } else {
                match self.charged(task, profile, intent, day, window_id) {
                    Err(error) => Err(error),
                    Ok(budget) => Ok(
                        AdmissionView {
                            activity: SampleView {
                                profile_id: profile.id@,
                                local_day: day,
                                window_id,
                                admitted_at_unix_ms: now_unix_ms,
                                seed,
                                interval_ms: interval as u64,
                                next_eligible_unix_ms: (now_unix_ms + interval) as u64,
                            },
                            budget,
                        },
                    ),
                }
            },
        }
    }

    /// The admission of an intent, for a seed.
    pub open spec fn admission(
        self,
        catalog: PolicyCatalog,
        intent: IntentView,
        now_unix_ms: u64,
        seed: u64,
    ) -> Result<AdmissionView, RuntimeHostError> {
        match located(catalog, intent) {
            Err(error) => Err(error),
            Ok((task, profile)) => match open_window(catalog.profiles@[profile], now_unix_ms) {
                None => Err(window_closed()),
                Some((day, index)) => if self.resting(
                    intent.instance_id,
                    catalog.profiles@[profile].id@,
                    now_unix_ms,
                ) {
                    Err(policy_request("policy_activity_interval_active", "reserve_policy_budget"))
                } else {
                    self.window_admission(
                        catalog.tasks@[task],
                        catalog.profiles@[profile],
                        intent,
                        now_unix_ms,
                        day as i64,
                        window_name(catalog.profiles@[profile].id@, day, index),
                        seed,
                    )
                },
            },
        }
    }

    /// The state once an admission counts.
    pub open spec fn after_admission(
        self,
        task_id: Seq<char>,
        instance_id: Seq<char>,
        admission: AdmissionView,
    ) -> ControlView {
        let activity = admission.activity;
        let budget = admission.budget;
        let task_window = (task_id, (instance_id, activity.window_id));
        let activity_window = (activity.profile_id, (instance_id, activity.window_id));
        ControlView {
            task_daily: self.task_daily.insert(
                (task_id, (instance_id, activity.local_day)),
                budget.task_daily_used,
            ),
            task_window: self.task_window.insert(task_window, budget.task_window_used),
            task_runtime: self.task_runtime.insert(task_window, budget.task_runtime_reserved_ms),
            activity_daily: self.activity_daily.insert(
                (activity.profile_id, (instance_id, activity.local_day)),
                budget.activity_daily_used,
            ),
            activity_window: self.activity_window.insert(
                activity_window,
                budget.activity_window_used,
            ),
            activity_runtime: self.activity_runtime.insert(
                activity_window,
                budget.activity_runtime_reserved_ms,
            ),
            next_activity_eligible: self.next_activity_eligible.insert(
                (instance_id, activity.profile_id),
                activity.next_eligible_unix_ms,
            ),
            failure_streaks: self.failure_streaks,
        }
    }
}

fn day_key(name: &String, instance_id: &String, day: i64) -> (key: DayKey)
    ensures
        key.id() == (name@, (instance_id@, day)),
{
    (name.clone(), (instance_id.clone(), day))
}

pub fn window_key(name: &String, instance_id: &String, window_id: &String) -> (key: WindowKey)
    ensures
        key.id() == (name@, (instance_id@, window_id@)),
{
    (name.clone(), (instance_id.clone(), window_id.clone()))
}

pub fn pair_key(first: &String, second: &String) -> (key: PairKey)
    ensures
        key.id() == (first@, second@),
{
    (first.clone(), second.clone())
}

pub fn same_admission(left: &PolicyAdmissionRecord, right: &PolicyAdmissionRecord) -> (same: bool)
    ensures
        same == (left@ == right@),
{
    same_text(left.activity.profile_id.as_str(), right.activity.profile_id.as_str())
        && left.activity.local_day == right.activity.local_day && same_text(
        left.activity.window_id.as_str(),
        right.activity.window_id.as_str(),
    ) && left.activity.admitted_at_unix_ms == right.activity.admitted_at_unix_ms
        && left.activity.seed == right.activity.seed && left.activity.interval_ms
        == right.activity.interval_ms && left.activity.next_eligible_unix_ms
        == right.activity.next_eligible_unix_ms && left.budget == right.budget
}

impl PolicyAdmissionRecord {
    /// The same admission once more.
    pub fn copy(&self) -> (admission: Self)
        ensures
            admission@ == self@,
    {
        PolicyAdmissionRecord {
            activity: PolicyActivitySample {
                profile_id: self.activity.profile_id.clone(),
                local_day: self.activity.local_day,
                window_id: self.activity.window_id.clone(),
                admitted_at_unix_ms: self.activity.admitted_at_unix_ms,
                seed: self.activity.seed,
                interval_ms: self.activity.interval_ms,
                next_eligible_unix_ms: self.activity.next_eligible_unix_ms,
            },
            budget: self.budget,
        }
    }
}

impl PolicyExecutionEventData {
    /// The same record once more.
    pub fn copy(&self) -> (data: Self)
        ensures
            data@ == self@,
    {
        PolicyExecutionEventData {
            decision_id: self.decision_id.clone(),
            task_id: self.task_id.clone(),
            instance_id: self.instance_id.clone(),
            observed_at_unix_ms: self.observed_at_unix_ms,
            outcome: match &self.outcome {
                PolicyExecutionOutcome::Succeeded { runtime_ms } =>
                    PolicyExecutionOutcome::Succeeded { runtime_ms: *runtime_ms },
                PolicyExecutionOutcome::Failed { failure } => PolicyExecutionOutcome::Failed {
                    failure: PolicyFailureRecord {
                        error_code: failure.error_code.clone(),
                        reported_success: failure.reported_success,
                        original_class: failure.original_class,
                        effective_class: failure.effective_class,
                        consecutive_same_error: failure.consecutive_same_error,
                        escalation_streak: failure.escalation_streak,
                        performance_tax_exempt: failure.performance_tax_exempt,
                        retry_attempt: failure.retry_attempt,
                        disposition: failure.disposition,
                        retry_at_unix_ms: failure.retry_at_unix_ms,
                        runtime_ms: failure.runtime_ms,
                        sensitive: failure.sensitive,
                        perf_context: Box::new(failure.perf_context.copy()),
                    },
                },
            },
        }
    }
}

/// A result that holds a value, or the error.
pub open spec fn admission_is(
    result: RuntimeHostResult<PolicyAdmissionRecord>,
    expected: Result<AdmissionView, RuntimeHostError>,
) -> bool {
    match expected {
        Ok(value) => result matches Ok(admission) && admission@ == value,
        Err(error) => result matches Err(actual) && actual == error,
    }
}

impl PolicyControlState {
    pub open spec fn wf(&self) -> bool {
        &&& self.task_daily.wf()
        &&& self.task_window.wf()
        &&& self.task_runtime.wf()
        &&& self.activity_daily.wf()
        &&& self.activity_window.wf()
        &&& self.activity_runtime.wf()
        &&& self.next_activity_eligible.wf()
        &&& self.failure_streaks.wf()
    }

    pub fn new() -> (state: Self)
        ensures
            state.wf(),
            state@ == (ControlView {
                task_daily: Map::empty(),
                task_window: Map::empty(),
                task_runtime: Map::empty(),
                activity_daily: Map::empty(),
                activity_window: Map::empty(),
                activity_runtime: Map::empty(),
                next_activity_eligible: Map::empty(),
                failure_streaks: Map::empty(),
            }),
    {
        let state = PolicyControlState {
            task_daily: OrderedMap::new(),
            task_window: OrderedMap::new(),
            task_runtime: OrderedMap::new(),
            activity_daily: OrderedMap::new(),
            activity_window: OrderedMap::new(),
            activity_runtime: OrderedMap::new(),
            next_activity_eligible: OrderedMap::new(),
            failure_streaks: OrderedMap::new(),
        };
        assert(state@.failure_streaks =~= Map::empty());
        state
    }

    fn charge(
        &self,
        task: &TaskSpec,
        profile: &ActivityProfile,
        intent: &DispatchIntent,
        day: i64,
        window_id: &String,
    ) -> (result: RuntimeHostResult<PolicyBudgetReceipt>)
        requires
            self.wf(),
        ensures
            result == self@.charged(*task, *profile, intent@, day, window_id@),
    {
        let task_daily_key = day_key(&intent.task_id, &intent.instance_id, day);
        let task_window_key = window_key(&intent.task_id, &intent.instance_id, window_id);
        let activity_daily_key = day_key(&profile.id, &intent.instance_id, day);
        let activity_window_key = window_key(&profile.id, &intent.instance_id, window_id);
        let task_daily_used = next_count(
            held_count(&self.task_daily, &task_daily_key),
            task.loop_budget.daily_limit,
        )?;
        let task_window_used = next_count(
            held_count(&self.task_window, &task_window_key),
            task.loop_budget.window_iteration_limit,
        )?;
        let task_runtime_reserved_ms = next_runtime(
            held_runtime(&self.task_runtime, &task_window_key),
            intent.expected_duration_ms,
            task.loop_budget.max_runtime_ms,
        )?;
        let activity_daily_used = next_count(
            held_count(&self.activity_daily, &activity_daily_key),
            profile.daily_budget,
        )?;
        let activity_window_used = next_count(
            held_count(&self.activity_window, &activity_window_key),
            profile.max_window_iterations,
        )?;
        let activity_runtime_reserved_ms = next_runtime(
            held_runtime(&self.activity_runtime, &activity_window_key),
            intent.expected_duration_ms,
            profile.session_max_ms,
        )?;
        Ok(
            PolicyBudgetReceipt {
                task_daily_used,
                task_daily_limit: task.loop_budget.daily_limit,
                task_window_used,
                task_window_limit: task.loop_budget.window_iteration_limit,
                task_runtime_reserved_ms,
                task_runtime_limit_ms: task.loop_budget.max_runtime_ms,
                activity_daily_used,
                activity_daily_limit: profile.daily_budget,
                activity_window_used,
                activity_window_limit: profile.max_window_iterations,
                activity_runtime_reserved_ms,
                activity_runtime_limit_ms: profile.session_max_ms,
            },
        )
    }

    fn admission_to_window(
        &self,
        task: &TaskSpec,
        profile: &ActivityProfile,
        intent: &DispatchIntent,
        now_unix_ms: u64,
        day: i64,
        window_id: String,
        seed: u64,
    ) -> (result: RuntimeHostResult<PolicyAdmissionRecord>)
        requires
            self.wf(),
        ensures
            admission_is(
                result,
                self@.window_admission(
                    *task,
                    *profile,
                    intent@,
                    now_unix_ms,
                    day,
                    window_id@,
                    seed,
                ),
            ),
    {
        let interval_ms = sampled_interval(profile, seed)?;
        let next_eligible_unix_ms: u64 = match now_unix_ms.checked_add(interval_ms) {
            Some(next) => next,
            None => {
                return Err(fatal("policy_activity_time_overflow", "reserve_policy_budget"));
            },
        };
        let budget = self.charge(task, profile, intent, day, &window_id)?;
        Ok(
            PolicyAdmissionRecord {
                activity: PolicyActivitySample {
                    profile_id: profile.id.clone(),
                    local_day: day,
                    window_id,
                    admitted_at_unix_ms: now_unix_ms,
                    seed,
                    interval_ms,
                    next_eligible_unix_ms,
                },
                budget,
            },
        )
    }

    /// The task, the profile and the open window of an intent whose profile
    /// does not rest.
    fn open_for(&self, catalog: &PolicyCatalog, intent: &DispatchIntent, now_unix_ms: u64) -> (result:
        RuntimeHostResult<(usize, usize, i64, String)>)
        requires
            self.wf(),
        ensures
            match located(*catalog, intent@) {
                Err(error) => result matches Err(actual) && actual == error,
                Ok((task, profile)) => match open_window(catalog.profiles@[profile], now_unix_ms) {
                    None => result matches Err(actual) && actual == window_closed(),
                    Some((day, index)) => if self@.resting(
                        intent.instance_id@,
                        catalog.profiles@[profile].id@,
                        now_unix_ms,
                    ) {
                        result matches Err(actual) && actual == policy_request(
                            "policy_activity_interval_active",
                            "reserve_policy_budget",
                        )
                    } else {
                        &&& result matches Ok(found)
                        &&& found.0 == task && task < catalog.tasks@.len()
                        &&& found.1 == profile && profile < catalog.profiles@.len()
                        &&& found.2 == day
                        &&& found.3@ == window_name(catalog.profiles@[profile].id@, day, index)
                    },
                },
            },
    {
        let (task, index) = task_and_profile(catalog, intent)?;
        let profile = &catalog.profiles[index];
        let (local_day, window_id) = active_activity_window(profile, now_unix_ms)?;
        let cadence_key = pair_key(&intent.instance_id, &profile.id);
        if now_unix_ms < held_runtime(&self.next_activity_eligible, &cadence_key) {
            return Err(request("policy_activity_interval_active", "reserve_policy_budget"));
        }
        Ok((task, index, local_day, window_id))
    }

    /// The admission of an intent for a seed: the next rest is drawn from the
    /// seed, and every budget must have room for the intent.
    pub fn preview_seeded_admission(
        &self,
        catalog: &PolicyCatalog,
        intent: &DispatchIntent,
        now_unix_ms: u64,
        seed: u64,
    ) -> (result: RuntimeHostResult<PolicyAdmissionRecord>)
        requires
            self.wf(),
        ensures
            admission_is(result, self@.admission(*catalog, intent@, now_unix_ms, seed)),
    {
        let (task, profile, local_day, window_id) = self.open_for(catalog, intent, now_unix_ms)?;
        self.admission_to_window(
            &catalog.tasks[task],
            &catalog.profiles[profile],
            intent,
            now_unix_ms,
            local_day,
            window_id,
            seed,
        )
    }

    /// The admission of an intent. Its seed is drawn from the decision, the
    /// profile and the window, so that the same round gives the same sample.
    pub fn preview_admission(
        &self,
        catalog: &PolicyCatalog,
        intent: &DispatchIntent,
        now_unix_ms: u64,
    ) -> (result: RuntimeHostResult<PolicyAdmissionRecord>)
        requires
            self.wf(),
        ensures
            admission_is(
                result,
                self@.admission(
                    *catalog,
                    intent@,
                    now_unix_ms,
                    drawn_seed(*catalog, intent@, now_unix_ms),
                ),
            ),
    {
        let (task, profile, local_day, window_id) = self.open_for(catalog, intent, now_unix_ms)?;
        let seed = activity_seed(
            intent.decision_id.as_str(),
            catalog.profiles[profile].id.as_str(),
            window_id.as_str(),
        );
        self.admission_to_window(
            &catalog.tasks[task],
            &catalog.profiles[profile],
            intent,
            now_unix_ms,
            local_day,
            window_id,
            seed,
        )
    }

    /// Charges an admission that is still the one the state gives.
    pub fn commit_admission(
        &mut self,
        catalog: &PolicyCatalog,
        intent: &DispatchIntent,
        admission: &PolicyAdmissionRecord,
    ) -> (result: RuntimeHostResult<()>)
        requires
            old(self).wf(),
        ensures
            final(self).wf(),
            ({
                let now = admission.activity.admitted_at_unix_ms;
                match old(self)@.admission(
                    *catalog,
                    intent@,
                    now,
                    drawn_seed(*catalog, intent@, now),
                ) {
                    Err(error) => result == Err::<(), _>(error) && final(self)@ == old(self)@,
                    Ok(expected) => if expected == admission@ {
                        result is Ok && final(self)@ == old(self)@.after_admission(
                            intent.task_id@,
                            intent.instance_id@,
                            admission@,
                        )
                    } else {
                        result == Err::<(), _>(
                            policy_fatal("policy_budget_receipt_mismatch", "commit_policy_budget"),
                        ) && final(self)@ == old(self)@
                    },
                }
            }),
    {
        let expected = self.preview_admission(
            catalog,
            intent,
            admission.activity.admitted_at_unix_ms,
        )?;
        if !same_admission(&expected, admission) {
            return Err(fatal("policy_budget_receipt_mismatch", "commit_policy_budget"));
        }
        let activity = &admission.activity;
        let budget = &admission.budget;
        self.task_daily.insert(
            day_key(&intent.task_id, &intent.instance_id, activity.local_day),
            budget.task_daily_used,
        );
        self.task_window.insert(
            window_key(&intent.task_id, &intent.instance_id, &activity.window_id),
            budget.task_window_used,
        );
        self.task_runtime.insert(
            window_key(&intent.task_id, &intent.instance_id, &activity.window_id),
            budget.task_runtime_reserved_ms,
        );
        self.activity_daily.insert(
            day_key(&activity.profile_id, &intent.instance_id, activity.local_day),
            budget.activity_daily_used,
        );
        self.activity_window.insert(
            window_key(&activity.profile_id, &intent.instance_id, &activity.window_id),
            budget.activity_window_used,
        );
        self.activity_runtime.insert(
            window_key(&activity.profile_id, &intent.instance_id, &activity.window_id),
            budget.activity_runtime_reserved_ms,
        );
        self.next_activity_eligible.insert(
            pair_key(&intent.instance_id, &activity.profile_id),
            activity.next_eligible_unix_ms,
        );
        Ok(())
    }
}

/// No admission takes a budget over its limit, and the limits are those of the
/// catalog.
pub proof fn law_budgets_are_not_exceeded(
    state: ControlView,
    catalog: PolicyCatalog,
    intent: IntentView,
    now_unix_ms: u64,
    seed: u64,
)
    ensures
        state.admission(catalog, intent, now_unix_ms, seed) matches Ok(admission) ==> {
            let (task, profile) = located(catalog, intent)->Ok_0;
            let budget = admission.budget;
            &&& budget.task_daily_used <= budget.task_daily_limit
            &&& budget.task_window_used <= budget.task_window_limit
            &&& budget.task_runtime_reserved_ms <= budget.task_runtime_limit_ms
            &&& budget.activity_daily_used <= budget.activity_daily_limit
            &&& budget.activity_window_used <= budget.activity_window_limit
            &&& budget.activity_runtime_reserved_ms <= budget.activity_runtime_limit_ms
            &&& budget.task_daily_limit == catalog.tasks@[task].loop_budget.daily_limit
            &&& budget.task_window_limit
                == catalog.tasks@[task].loop_budget.window_iteration_limit
            &&& budget.task_runtime_limit_ms == catalog.tasks@[task].loop_budget.max_runtime_ms
            &&& budget.activity_daily_limit == catalog.profiles@[profile].daily_budget
            &&& budget.activity_window_limit == catalog.profiles@[profile].max_window_iterations
            &&& budget.activity_runtime_limit_ms == catalog.profiles@[profile].session_max_ms
        },
{
}

/// A task that has used up its day on an instance is not let in again on that
/// day, whatever the decision and the seed.
pub proof fn law_spent_day_refuses(
    state: ControlView,
    catalog: PolicyCatalog,
    intent: IntentView,
    now_unix_ms: u64,
    seed: u64,
)
    requires
        located(catalog, intent) is Ok,
        open_window(
            catalog.profiles@[located(catalog, intent)->Ok_0.1],
            now_unix_ms,
        ) is Some,
        ({
            let (task, profile) = located(catalog, intent)->Ok_0;
            let (day, index) = open_window(catalog.profiles@[profile], now_unix_ms)->0;
            held(state.task_daily, (intent.task_id, (intent.instance_id, day as i64)), 0)
                >= catalog.tasks@[task].loop_budget.daily_limit
        }),
    ensures
        state.admission(catalog, intent, now_unix_ms, seed) is Err,
{
}

/// Once an admission counts, its profile takes nothing on that instance before
/// the rest that was drawn is over.
pub proof fn law_rest_blocks_reentry(
    state: ControlView,
    catalog: PolicyCatalog,
    first: IntentView,
    first_at: u64,
    first_seed: u64,
    second: IntentView,
    second_at: u64,
    second_seed: u64,
)
    requires
        state.admission(catalog, first, first_at, first_seed) is Ok,
        located(catalog, second) is Ok,
        second.instance_id == first.instance_id,
        second.prerequisites.activity_profile_id == first.prerequisites.activity_profile_id,
        second_at < state.admission(
            catalog,
            first,
            first_at,
            first_seed,
        )->Ok_0.activity.next_eligible_unix_ms,
        open_window(catalog.profiles@[located(catalog, second)->Ok_0.1], second_at) is Some,
    ensures
        state.after_admission(
            first.task_id,
            first.instance_id,
            state.admission(catalog, first, first_at, first_seed)->Ok_0,
        ).admission(catalog, second, second_at, second_seed) == Err::<AdmissionView, _>(
            policy_request("policy_activity_interval_active", "reserve_policy_budget"),
        ),
{
}

/// An admission that counts is one more use of each counter.
pub proof fn law_admission_counts_once(
    state: ControlView,
    catalog: PolicyCatalog,
    intent: IntentView,
    now_unix_ms: u64,
    seed: u64,
)
    requires
        state.admission(catalog, intent, now_unix_ms, seed) is Ok,
    ensures
        ({
            let admission = state.admission(catalog, intent, now_unix_ms, seed)->Ok_0;
            let after = state.after_admission(intent.task_id, intent.instance_id, admission);
            let task_day = (intent.task_id, (intent.instance_id, admission.activity.local_day));
            let task_window = (
                intent.task_id,
                (intent.instance_id, admission.activity.window_id),
            );
            &&& after.task_daily[task_day] == held(state.task_daily, task_day, 0) + 1
            &&& after.task_window[task_window] == held(state.task_window, task_window, 0) + 1
            &&& after.task_runtime[task_window] == held(state.task_runtime, task_window, 0)
                + intent.expected_duration_ms
        }),
{
}

/// The task and the profile of an intent are those that the catalog holds
/// under its names, and an intent is refused only where one of them is missing.
pub proof fn law_intent_is_located_by_its_names(catalog: PolicyCatalog, intent: IntentView)
    ensures
        match located(catalog, intent) {
            Ok((task, profile)) => {
                &&& 0 <= task < catalog.tasks@.len()
                &&& catalog.tasks@[task].id@ == intent.task_id
                &&& 0 <= profile < catalog.profiles@.len()
                &&& catalog.profiles@[profile].id@ == intent.prerequisites.activity_profile_id
            },
            Err(error) => {
                ||| error.code == "policy_task_missing" && forall|i: int|
                    0 <= i < catalog.tasks@.len() ==> (#[trigger] catalog.tasks@[i]).id@
                        != intent.task_id
                ||| error.code == "policy_activity_profile_missing" && forall|i: int|
                    0 <= i < catalog.profiles@.len() ==> (#[trigger] catalog.profiles@[i]).id@
                        != intent.prerequisites.activity_profile_id
            },
        },
{
    lemma_position(catalog.tasks@, task_named(intent.task_id));
    lemma_position(
        catalog.profiles@,
        profile_named(intent.prerequisites.activity_profile_id),
    );
    if catalog.task_position(intent.task_id) is None {
        assert forall|i: int| 0 <= i < catalog.tasks@.len() implies (#[trigger] catalog.tasks@[i]).id@
            != intent.task_id by {
            assert(!task_named(intent.task_id)(catalog.tasks@[i]));
        }
    } else {
        let task = catalog.task_position(intent.task_id)->0;
        assert(task_named(intent.task_id)(catalog.tasks@[task]));
    }
    if catalog.profile_position(intent.prerequisites.activity_profile_id) is None {
        assert forall|i: int| 0 <= i < catalog.profiles@.len() implies (
        #[trigger] catalog.profiles@[i]).id@ != intent.prerequisites.activity_profile_id by {
            assert(!profile_named(intent.prerequisites.activity_profile_id)(catalog.profiles@[i]));
        }
    } else {
        let profile = catalog.profile_position(intent.prerequisites.activity_profile_id)->0;
        assert(profile_named(intent.prerequisites.activity_profile_id)(catalog.profiles@[profile]));
    }
}

/// What is left of each of the six budgets of a task and a profile allows one
/// more run: a use for the day, a use for the window and the expected runtime,
/// of the task and of the profile.
pub open spec fn budgets_allow(
    state: ControlView,
    task: TaskSpec,
    profile: ActivityProfile,
    intent: IntentView,
    day: i64,
    window_id: Seq<char>,
) -> bool {
    let on_day = |name: Seq<char>| (name, (intent.instance_id, day));
    let in_window = |name: Seq<char>| (name, (intent.instance_id, window_id));
    &&& held(state.task_daily, on_day(intent.task_id), 0) < task.loop_budget.daily_limit
    &&& held(state.task_window, in_window(intent.task_id), 0)
        < task.loop_budget.window_iteration_limit
    &&& held(state.task_runtime, in_window(intent.task_id), 0) + intent.expected_duration_ms
        <= task.loop_budget.max_runtime_ms
    &&& held(state.activity_daily, on_day(profile.id@), 0) < profile.daily_budget
    &&& held(state.activity_window, in_window(profile.id@), 0) < profile.max_window_iterations
    &&& held(state.activity_runtime, in_window(profile.id@), 0) + intent.expected_duration_ms
        <= profile.session_max_ms
}

/// An intent is admitted exactly where its profile has an open window, does not
/// rest on the instance, can draw a rest whose end can be told, and every
/// budget allows one more run. No other reason refuses it.
pub proof fn law_admission_is_owed(
    state: ControlView,
    catalog: PolicyCatalog,
    intent: IntentView,
    now_unix_ms: u64,
    seed: u64,
)
    requires
        located(catalog, intent) is Ok,
    ensures
        ({
            let (at, within) = located(catalog, intent)->Ok_0;
            let task = catalog.tasks@[at];
            let profile = catalog.profiles@[within];
            let eligible = state.next_activity_eligible;
            let pair = (intent.instance_id, profile.id@);
            state.admission(catalog, intent, now_unix_ms, seed) is Ok <==> {
                &&& open_window(profile, now_unix_ms) matches Some((day, index))
                    && budgets_allow(
                    state,
                    task,
                    profile,
                    intent,
                    day as i64,
                    window_name(profile.id@, day, index),
                )
                &&& eligible.contains_key(pair) ==> eligible[pair] <= now_unix_ms
                &&& profile.minimum_interval_ms <= profile.maximum_interval_ms
                &&& interval_for(profile, seed) matches Some(interval) && now_unix_ms + interval
                    <= u64::MAX
            }
        }),
{
}

/// An intent whose profile has no open window is refused as outside of its
/// hours; one whose profile rests on the instance is refused as too early.
pub proof fn law_closed_or_resting_profile_refuses(
    state: ControlView,
    catalog: PolicyCatalog,
    intent: IntentView,
    now_unix_ms: u64,
    seed: u64,
)
    requires
        located(catalog, intent) is Ok,
    ensures
        ({
            let profile = catalog.profiles@[located(catalog, intent)->Ok_0.1];
            let pair = (intent.instance_id, profile.id@);
            let result = state.admission(catalog, intent, now_unix_ms, seed);
            &&& (forall|i: int|
                0 <= i < profile.windows@.len() ==> open_day(
                    #[trigger] profile.windows@[i],
                    now_unix_ms,
                ) is None) ==> (result matches Err(error) && error.code
                == "policy_activity_window_closed" && !error.fatal)
            &&& (exists|i: int|
                0 <= i < profile.windows@.len() && open_day(
                    #[trigger] profile.windows@[i],
                    now_unix_ms,
                ) is Some) && state.next_activity_eligible.contains_key(pair) && now_unix_ms
                < state.next_activity_eligible[pair] ==> (result matches Err(error) && error.code
                == "policy_activity_interval_active" && !error.fatal)
        }),
{
    let profile = catalog.profiles@[located(catalog, intent)->Ok_0.1];
    law_first_open_window_counts(profile, now_unix_ms);
}

/// An admission tells when and where it was given: at the time and in the open
/// window of the intent's profile, with a rest between the profile's bounds
/// that ends so much later.
pub proof fn law_admission_tells_its_window(
    state: ControlView,
    catalog: PolicyCatalog,
    intent: IntentView,
    now_unix_ms: u64,
    seed: u64,
)
    requires
        state.admission(catalog, intent, now_unix_ms, seed) is Ok,
    ensures
        ({
            let profile = catalog.profiles@[located(catalog, intent)->Ok_0.1];
            let activity = state.admission(catalog, intent, now_unix_ms, seed)->Ok_0.activity;
            &&& activity.profile_id == profile.id@
            &&& activity.admitted_at_unix_ms == now_unix_ms
            &&& activity.seed == seed
            &&& profile.minimum_interval_ms <= activity.interval_ms <= profile.maximum_interval_ms
            &&& activity.next_eligible_unix_ms == now_unix_ms + activity.interval_ms
            &&& exists|i: int| {
                &&& 0 <= i < profile.windows@.len()
                &&& open_day(#[trigger] profile.windows@[i], now_unix_ms) matches Some(day)
                    && activity.local_day == day as i64 && activity.window_id == window_name(
                    profile.id@,
                    day,
                    i,
                )
            }
        }),
{
    let profile = catalog.profiles@[located(catalog, intent)->Ok_0.1];
    law_first_open_window_counts(profile, now_unix_ms);
    law_interval_within_bounds(profile, seed);
    let (day, index) = open_window(profile, now_unix_ms)->0;
    assert(open_day(profile.windows@[index], now_unix_ms) == Some(day));
}

/// An admission that counts is one more use of the profile too, and moves the
/// end of the profile's rest on the instance.
pub proof fn law_admission_charges_the_profile(
    state: ControlView,
    catalog: PolicyCatalog,
    intent: IntentView,
    now_unix_ms: u64,
    seed: u64,
)
    requires
        state.admission(catalog, intent, now_unix_ms, seed) is Ok,
    ensures
        ({
            let admission = state.admission(catalog, intent, now_unix_ms, seed)->Ok_0;
            let profile_id = intent.prerequisites.activity_profile_id;
            let after = state.after_admission(intent.task_id, intent.instance_id, admission);
            let on_day = (profile_id, (intent.instance_id, admission.activity.local_day));
            let in_window = (profile_id, (intent.instance_id, admission.activity.window_id));
            &&& after.activity_daily[on_day] == held(state.activity_daily, on_day, 0) + 1
            &&& after.activity_window[in_window] == held(state.activity_window, in_window, 0) + 1
            &&& after.activity_runtime[in_window] == held(state.activity_runtime, in_window, 0)
                + intent.expected_duration_ms
            &&& after.next_activity_eligible[(intent.instance_id, profile_id)] == now_unix_ms
                + admission.activity.interval_ms
            &&& after.failure_streaks == state.failure_streaks
        }),
{
    law_intent_is_located_by_its_names(catalog, intent);
}

/// An admission on one instance takes nothing from another: there every intent
/// is answered as before.
pub proof fn law_instances_do_not_share_budgets(
    state: ControlView,
    catalog: PolicyCatalog,
    task_id: Seq<char>,
    instance_id: Seq<char>,
    admission: AdmissionView,
    other: IntentView,
    now_unix_ms: u64,
    seed: u64,
)
    requires
        other.instance_id != instance_id,
    ensures
        state.after_admission(task_id, instance_id, admission).admission(
            catalog,
            other,
            now_unix_ms,
            seed,
        ) == state.admission(catalog, other, now_unix_ms, seed),
{
}

/// An admission takes from another task with another profile on the same
/// instance nothing either.
pub proof fn law_tasks_do_not_share_budgets(
    state: ControlView,
    catalog: PolicyCatalog,
    task_id: Seq<char>,
    instance_id: Seq<char>,
    admission: AdmissionView,
    other: IntentView,
    now_unix_ms: u64,
    seed: u64,
)
    requires
        other.task_id != task_id,
        other.prerequisites.activity_profile_id != admission.activity.profile_id,
    ensures
        state.after_admission(task_id, instance_id, admission).admission(
            catalog,
            other,
            now_unix_ms,
            seed,
        ) == state.admission(catalog, other, now_unix_ms, seed),
{
    law_intent_is_located_by_its_names(catalog, other);
}

} // verus!
