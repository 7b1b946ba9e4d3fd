//! What follows from the end of an execution.

use vstd::arithmetic::mul::lemma_mul_is_associative;
use vstd::arithmetic::power2::{lemma2_to64, lemma_pow2_pos, lemma_pow2_unfold, pow2};
use vstd::prelude::*;

use crate::error::{RuntimeHostError, RuntimeHostResult};
use crate::performance::monitor::{unavailable_context, ContextView, PerformanceContext};
use crate::policy::catalog::{
    fatal, policy_fatal, policy_request, request, DispatchIntent, FailureAction, IntentView,
    PolicyCatalog, TaskSpec,
};
use crate::policy::control::{
    held, located, pair_key, task_and_profile, window_key, AdmissionView, ControlView,
    ExecutionView, FailureStreak, FailureView, InputView, OutcomeView, PairId,
    PolicyAdmissionRecord, PolicyControlState, PolicyExecutionEventData, PolicyExecutionInput,
    PolicyExecutionOutcome, PolicyFailureClass, PolicyFailureDisposition, PolicyFailureRecord,
    StreakView, WindowId,
};
use crate::text::same_text;

verus! {

pub open spec fn smaller_int(left: int, right: int) -> int {
    if left <= right {
        left
    } else {
        right
    }
}

/// The delay before a retry: it doubles with every attempt and never exceeds
/// the longest delay of the task.
pub open spec fn backoff(task: TaskSpec, attempt: u16) -> int {
    let first = if task.on_failure.retry_backoff_ms == 0 {
        1
    } else {
        task.on_failure.retry_backoff_ms as int
    };
    let doublings = if attempt == 0 {
        0
    } else {
        smaller_int(attempt - 1, 63)
    };
    smaller_int(
        smaller_int(first * pow2(doublings as nat), u64::MAX as int),
        task.next_run_clamp_ms as int,
    )
}

/// A number doubled some times, kept within `u64`.
fn doubled(first: u64, doublings: u64) -> (value: u64)
    ensures
        value == smaller_int(first * pow2(doublings as nat), u64::MAX as int),
{
    let mut value: u64 = first;
    let mut done: u64 = 0;
    proof {
        lemma2_to64();
    }
    while done < doublings
        invariant
            done <= doublings,
            value == smaller_int(first * pow2(done as nat), u64::MAX as int),
        decreases doublings - done,
    {
        proof {
            lemma_pow2_unfold((done + 1) as nat);
            lemma_mul_is_associative(first as int, 2, pow2(done as nat) as int);
            lemma_mul_is_associative(2, first as int, pow2(done as nat) as int);
            assert(first * pow2((done + 1) as nat) == 2 * (first * pow2(done as nat)));
        }
        value = if value > u64::MAX / 2 {
            u64::MAX
        } else {
            value * 2
        };
        done += 1;
    }
    value
}

pub fn retry_backoff_ms(task: &TaskSpec, attempt: u16) -> (delay: u64)
    ensures
        delay == backoff(*task, attempt),
{
    let first: u64 = if task.on_failure.retry_backoff_ms == 0 {
        1
    } else {
        task.on_failure.retry_backoff_ms
    };
    let doublings: u64 = if attempt == 0 {
        0
    } else if attempt - 1 <= 63 {
        (attempt - 1) as u64
    } else {
        63
    };
    let delay = doubled(first, doublings);
    if delay <= task.next_run_clamp_ms {
        delay
    } else {
        task.next_run_clamp_ms
    }
}

/// The runtime budgets with the real runtime in place of the reservation.
pub open spec fn runtime_totals(
    expected_duration_ms: u64,
    admission: AdmissionView,
    runtime_ms: u64,
) -> Result<(u64, u64), RuntimeHostError> {
    let task_before = admission.budget.task_runtime_reserved_ms - expected_duration_ms;
    let activity_before = admission.budget.activity_runtime_reserved_ms - expected_duration_ms;
    if task_before < 0 || activity_before < 0 {
        Err(policy_fatal("policy_budget_receipt_invalid", "classify_policy_outcome"))
    } else if task_before + runtime_ms > u64::MAX || activity_before + runtime_ms > u64::MAX {
        Err(policy_fatal("policy_budget_counter_overflow", "classify_policy_outcome"))
    } else {
        Ok(((task_before + runtime_ms) as u64, (activity_before + runtime_ms) as u64))
    }
}

pub fn actual_runtime_totals(
    intent: &DispatchIntent,
    admission: &PolicyAdmissionRecord,
    runtime_ms: u64,
) -> (result: RuntimeHostResult<(u64, u64)>)
    ensures
        result == runtime_totals(intent.expected_duration_ms, admission@, runtime_ms),
{
    if admission.budget.task_runtime_reserved_ms < intent.expected_duration_ms
        || admission.budget.activity_runtime_reserved_ms < intent.expected_duration_ms {
        return Err(fatal("policy_budget_receipt_invalid", "classify_policy_outcome"));
    }
    let task_before: u64 = admission.budget.task_runtime_reserved_ms - intent.expected_duration_ms;
    let activity_before: u64 = admission.budget.activity_runtime_reserved_ms
        - intent.expected_duration_ms;
    match (task_before.checked_add(runtime_ms), activity_before.checked_add(runtime_ms)) {
        (Some(task_total), Some(activity_total)) => Ok((task_total, activity_total)),
        _ => Err(fatal("policy_budget_counter_overflow", "classify_policy_outcome")),
    }
}

/// The streak that a failure continues.
pub open spec fn continued_streak(
    previous: Option<StreakView>,
    error_code: Seq<char>,
    class: PolicyFailureClass,
) -> Option<StreakView> {
    match previous {
        Some(streak) => if streak.error_code == error_code && streak.class == class {
            Some(streak)
        } else {
            None
        },
        None => None,
    }
}

/// What a failure counts as, and what follows.
pub open spec fn classified(
    task: TaskSpec,
    previous: Option<StreakView>,
    error_code: Seq<char>,
    class: PolicyFailureClass,
    reported_success: bool,
    observed_at_unix_ms: u64,
    runtime_ms: u64,
    perf_context: ContextView,
) -> Result<FailureView, RuntimeHostError> {
    let streak = continued_streak(previous, error_code, class);
    let consecutive: int = match streak {
        Some(streak) => streak.count + 1,
        None => 1,
    };
    let exempt = class == PolicyFailureClass::Recoverable && !task.sensitive
        && perf_context.pressures.len() > 0;
    let escalation: int = match streak {
        Some(streak) => streak.escalation_streak + if exempt {
            0int
        } else {
            1
        },
        None => if exempt {
            0
        } else {
            1
        },
    };
    let severe = class == PolicyFailureClass::Severe || task.sensitive || escalation
        >= task.on_failure.escalation_threshold;
    let retry = !severe && consecutive <= task.on_failure.retry_limit;
    let retry_at = observed_at_unix_ms + backoff(task, consecutive as u16);
    if consecutive > u16::MAX || escalation > u16::MAX {
        Err(policy_fatal("policy_failure_count_overflow", "classify_policy_outcome"))
    } else if retry && retry_at > u64::MAX {
        Err(policy_fatal("policy_retry_time_overflow", "classify_policy_outcome"))
    } else {
        Ok(
            FailureView {
                error_code,
                reported_success,
                original_class: class,
                effective_class: if severe {
                    PolicyFailureClass::Severe
                } else {
                    PolicyFailureClass::Recoverable
                },
                consecutive_same_error: consecutive as u16,
                escalation_streak: escalation as u16,
                performance_tax_exempt: exempt,
                retry_attempt: if retry {
                    consecutive as u16
                } else {
                    0
                },
                disposition: if severe {
                    PolicyFailureDisposition::PausedTask
                } else if retry {
                    PolicyFailureDisposition::RetryScheduled
                } else if task.on_failure.action == FailureAction::Continue {
                    PolicyFailureDisposition::Continue
                } else {
                    PolicyFailureDisposition::PausedTask
                },
                retry_at_unix_ms: if retry {
                    Some(retry_at as u64)
                } else {
                    None
                },
                runtime_ms,
                sensitive: task.sensitive,
                perf_context,
            },
        )
    }
}

pub fn classify_failure(
    task: &TaskSpec,
    previous: Option<&FailureStreak>,
    error_code: String,
    class: PolicyFailureClass,
    reported_success: bool,
    observed_at_unix_ms: u64,
    runtime_ms: u64,
    perf_context: &PerformanceContext,
) -> (result: RuntimeHostResult<PolicyFailureRecord>)
    ensures
        match classified(
            *task,
            match previous {
                Some(streak) => Some(streak@),
                None => None,
            },
            error_code@,
            class,
            reported_success,
            observed_at_unix_ms,
            runtime_ms,
            perf_context@,
        ) {
            Ok(value) => result matches Ok(failure) && failure@ == value,
            Err(error) => result matches Err(actual) && actual == error,
        },
{
    let exempt = class == PolicyFailureClass::Recoverable && !task.sensitive
        && perf_context.pressure_observed();
    let mut count: u16 = 0;
    let mut escalated: u16 = 0;
    if let Some(streak) = previous {
        if same_text(streak.error_code.as_str(), error_code.as_str()) && streak.class == class {
            count = streak.count;
            escalated = streak.escalation_streak;
        }
    }
    if count == u16::MAX || (!exempt && escalated == u16::MAX) {
        return Err(fatal("policy_failure_count_overflow", "classify_policy_outcome"));
    }
    let consecutive_same_error: u16 = count + 1;
    let escalation_streak: u16 = if exempt {
        escalated
    } else {
        escalated + 1
    };
    let severe = class == PolicyFailureClass::Severe || task.sensitive || escalation_streak
        >= task.on_failure.escalation_threshold;
    let mut retry_attempt: u16 = 0;
    let mut retry_at_unix_ms: Option<u64> = None;
    let mut disposition = PolicyFailureDisposition::PausedTask;
    if !severe {
        if consecutive_same_error <= task.on_failure.retry_limit {
            match observed_at_unix_ms.checked_add(retry_backoff_ms(task, consecutive_same_error)) {
                None => {
                    return Err(fatal("policy_retry_time_overflow", "classify_policy_outcome"));
                },
                Some(retry_at) => {
                    disposition = PolicyFailureDisposition::RetryScheduled;
                    retry_attempt = consecutive_same_error;
                    retry_at_unix_ms = Some(retry_at);
                },
            }
        } else if task.on_failure.action == FailureAction::Continue {
            disposition = PolicyFailureDisposition::Continue;
        }
    }
    Ok(
        PolicyFailureRecord {
            error_code,
            reported_success,
            original_class: class,
            effective_class: if severe {
                PolicyFailureClass::Severe
            } else {
                PolicyFailureClass::Recoverable
            },
            consecutive_same_error,
            escalation_streak,
            performance_tax_exempt: exempt,
            retry_attempt,
            disposition,
            retry_at_unix_ms,
            runtime_ms,
            sensitive: task.sensitive,
            perf_context: Box::new(perf_context.copy()),
        },
    )
}

/// A report with the overrun of a runtime budget taken into account.
pub open spec fn effective_input(input: InputView, overrun: bool) -> InputView {
    if overrun {
        InputView::Failed {
            error_code: "policy_runtime_budget_exceeded"@,
            class: PolicyFailureClass::Severe,
        }
    } else {
        input
    }
}

/// The report that an outcome was made from.
pub open spec fn reported_input(outcome: OutcomeView) -> InputView {
    match outcome {
        OutcomeView::Succeeded { .. } => InputView::Succeeded,
        OutcomeView::Failed { failure } => if failure.reported_success {
            InputView::Succeeded
        } else {
            InputView::Failed { error_code: failure.error_code, class: failure.original_class }
        },
    }
}

/// The context that an outcome was made with.
pub open spec fn reported_context(outcome: OutcomeView) -> ContextView {
    match outcome {
        OutcomeView::Succeeded { .. } => unavailable_context(1),
        OutcomeView::Failed { failure } => failure.perf_context,
    }
}

pub open spec fn outcome_runtime(outcome: OutcomeView) -> u64 {
    match outcome {
        OutcomeView::Succeeded { runtime_ms } => runtime_ms,
        OutcomeView::Failed { failure } => failure.runtime_ms,
    }
}

impl ControlView {
    pub open spec fn streak_of(self, task_id: Seq<char>, instance_id: Seq<char>) -> Option<
        StreakView,
    > {
        if self.failure_streaks.contains_key((task_id, instance_id)) {
            Some(self.failure_streaks[(task_id, instance_id)])
        } else {
            None
        }
    }

    /// The record of an execution.
    pub open spec fn execution(
        self,
        catalog: PolicyCatalog,
        intent: IntentView,
        admission: AdmissionView,
        observed_at_unix_ms: u64,
        input: InputView,
        perf_context: ContextView,
    ) -> Result<ExecutionView, RuntimeHostError> {
        let runtime_ms = (observed_at_unix_ms - admission.activity.admitted_at_unix_ms) as u64;
        let totals = runtime_totals(intent.expected_duration_ms, admission, runtime_ms);
        let overrun = totals->Ok_0.0 > admission.budget.task_runtime_limit_ms || totals->Ok_0.1
            > admission.budget.activity_runtime_limit_ms;
        if located(catalog, intent) is Err {
            Err(located(catalog, intent)->Err_0)
        } else if observed_at_unix_ms < admission.activity.admitted_at_unix_ms {
            Err(policy_request("policy_execution_time_reversed", "classify_policy_outcome"))
        } else if totals is Err {
            Err(totals->Err_0)
        } else {
            match effective_input(input, overrun) {
                InputView::Succeeded => Ok(
                    execution_record(
                        intent,
                        observed_at_unix_ms,
                        OutcomeView::Succeeded { runtime_ms },
                    ),
                ),
                InputView::Failed { error_code, class } => match classified(
                    catalog.tasks@[located(catalog, intent)->Ok_0.0],
                    self.streak_of(intent.task_id, intent.instance_id),
                    error_code,
                    class,
                    overrun && input is Succeeded,
                    observed_at_unix_ms,
                    runtime_ms,
                    perf_context,
                ) {
                    Err(error) => Err(error),
                    Ok(failure) => Ok(
                        execution_record(
                            intent,
                            observed_at_unix_ms,
                            OutcomeView::Failed { failure },
                        ),
                    ),
                },
            }
        }
    }

    /// The record that an execution would have now, from what the record says.
    pub open spec fn replayed_execution(
        self,
        catalog: PolicyCatalog,
        intent: IntentView,
        admission: AdmissionView,
        data: ExecutionView,
    ) -> Result<ExecutionView, RuntimeHostError> {
        self.execution(
            catalog,
            intent,
            admission,
            data.observed_at_unix_ms,
            reported_input(data.outcome),
            reported_context(data.outcome),
        )
    }

    /// The state once an execution counts.
    pub open spec fn after_execution(
        self,
        intent: IntentView,
        admission: AdmissionView,
        data: ExecutionView,
    ) -> ControlView {
        let totals = runtime_totals(
            intent.expected_duration_ms,
            admission,
            outcome_runtime(data.outcome),
        )->Ok_0;
        let pair = (intent.task_id, intent.instance_id);
        ControlView {
            task_runtime: self.task_runtime.insert(
                (intent.task_id, (intent.instance_id, admission.activity.window_id)),
                totals.0,
            ),
            activity_runtime: self.activity_runtime.insert(
                (
                    admission.activity.profile_id,
                    (intent.instance_id, admission.activity.window_id),
                ),
                totals.1,
            ),
            failure_streaks: match data.outcome {
                OutcomeView::Succeeded { .. } => self.failure_streaks.remove(pair),
                OutcomeView::Failed { failure } => self.failure_streaks.insert(
                    pair,
                    StreakView {
                        error_code: failure.error_code,
                        class: failure.original_class,
                        count: failure.consecutive_same_error,
                        escalation_streak: failure.escalation_streak,
                    },
                ),
            },
            ..self
        }
    }
}

/// The record of an intent's execution.
pub open spec fn execution_record(
    intent: IntentView,
    observed_at_unix_ms: u64,
    outcome: OutcomeView,
) -> ExecutionView {
    ExecutionView {
        decision_id: intent.decision_id,
        task_id: intent.task_id,
        instance_id: intent.instance_id,
        observed_at_unix_ms,
        outcome,
    }
}

/// Whether two records agree in all but the performance context.
fn same_execution(left: &PolicyExecutionEventData, right: &PolicyExecutionEventData) -> (same: bool)
    requires
        left.outcome@ matches OutcomeView::Failed { failure } ==> (right.outcome@
            matches OutcomeView::Failed { failure: other } ==> failure.perf_context
            == other.perf_context),
    ensures
        same == (left@ == right@),
{
    if !same_text(left.decision_id.as_str(), right.decision_id.as_str()) || !same_text(
        left.task_id.as_str(),
        right.task_id.as_str(),
    ) || !same_text(left.instance_id.as_str(), right.instance_id.as_str())
        || left.observed_at_unix_ms != right.observed_at_unix_ms {
        return false;
    }
    match (&left.outcome, &right.outcome) {
        (
            PolicyExecutionOutcome::Succeeded { runtime_ms: left },
            PolicyExecutionOutcome::Succeeded { runtime_ms: right },
        ) => *left == *right,
        (
            PolicyExecutionOutcome::Failed { failure: left },
            PolicyExecutionOutcome::Failed { failure: right },
        ) => same_text(left.error_code.as_str(), right.error_code.as_str())
            && left.reported_success == right.reported_success && left.original_class
            == right.original_class && left.effective_class == right.effective_class
            && left.consecutive_same_error == right.consecutive_same_error
            && left.escalation_streak == right.escalation_streak && left.performance_tax_exempt
            == right.performance_tax_exempt && left.retry_attempt == right.retry_attempt
            && left.disposition == right.disposition && left.retry_at_unix_ms
            == right.retry_at_unix_ms && left.runtime_ms == right.runtime_ms && left.sensitive
            == right.sensitive,
        _ => false,
    }
}

/// A result that holds a value, or the error.
pub open spec fn execution_is(
    result: RuntimeHostResult<PolicyExecutionEventData>,
    expected: Result<ExecutionView, RuntimeHostError>,
) -> bool {
    match expected {
        Ok(value) => result matches Ok(data) && data@ == value,
        Err(error) => result matches Err(actual) && actual == error,
    }
}

impl PolicyControlState {
    /// The record of an execution. An overrun of a runtime budget is a severe
    /// failure whatever was reported.
    pub fn preview_execution(
        &self,
        catalog: &PolicyCatalog,
        intent: &DispatchIntent,
        admission: &PolicyAdmissionRecord,
        observed_at_unix_ms: u64,
        input: &PolicyExecutionInput,
        perf_context: &PerformanceContext,
    ) -> (result: RuntimeHostResult<PolicyExecutionEventData>)
        requires
            self.wf(),
        ensures
            execution_is(
                result,
                self@.execution(
                    *catalog,
                    intent@,
                    admission@,
                    observed_at_unix_ms,
                    input@,
                    perf_context@,
                ),
            ),
    {
        let (task, _) = task_and_profile(catalog, intent)?;
        if observed_at_unix_ms < admission.activity.admitted_at_unix_ms {
            return Err(request("policy_execution_time_reversed", "classify_policy_outcome"));
        }
        let runtime_ms: u64 = observed_at_unix_ms - admission.activity.admitted_at_unix_ms;
        let (task_runtime_used_ms, activity_runtime_used_ms) = actual_runtime_totals(
            intent,
            admission,
            runtime_ms,
        )?;
        let overrun = task_runtime_used_ms > admission.budget.task_runtime_limit_ms
            || activity_runtime_used_ms > admission.budget.activity_runtime_limit_ms;
        let failed: Option<(String, PolicyFailureClass, bool)> = match input {
            PolicyExecutionInput::Succeeded => if overrun {
                Some(("policy_runtime_budget_exceeded".to_owned(), PolicyFailureClass::Severe, true))
            } else {
                None
            },
            PolicyExecutionInput::Failed { error_code, class } => if overrun {
                Some(
                    ("policy_runtime_budget_exceeded".to_owned(), PolicyFailureClass::Severe, false),
                )
            } else {
                Some((error_code.clone(), *class, false))
            },
        };
        let outcome = match failed {
            None => PolicyExecutionOutcome::Succeeded { runtime_ms },
            Some((error_code, class, reported_success)) => {
                let key = pair_key(&intent.task_id, &intent.instance_id);
                let failure = classify_failure(
                    &catalog.tasks[task],
                    self.failure_streaks.get(&key),
                    error_code,
                    class,
                    reported_success,
                    observed_at_unix_ms,
                    runtime_ms,
                    perf_context,
                )?;
                PolicyExecutionOutcome::Failed { failure }
            },
        };
        Ok(
            PolicyExecutionEventData {
                decision_id: intent.decision_id.clone(),
                task_id: intent.task_id.clone(),
                instance_id: intent.instance_id.clone(),
                observed_at_unix_ms,
                outcome,
            },
        )
    }

    /// Counts an execution whose record is still the one the state gives.
    pub fn commit_execution(
        &mut self,
        catalog: &PolicyCatalog,
        intent: &DispatchIntent,
        admission: &PolicyAdmissionRecord,
        data: &PolicyExecutionEventData,
    ) -> (result: RuntimeHostResult<()>)
        requires
            old(self).wf(),
        ensures
            final(self).wf(),
            match old(self)@.replayed_execution(*catalog, intent@, admission@, data@) {
                Err(error) => result == Err::<(), _>(error) && final(self)@ == old(self)@,
                Ok(expected) => if expected == data@ {
                    result is Ok && final(self)@ == old(self)@.after_execution(
                        intent@,
                        admission@,
                        data@,
                    )
                } else {
                    result == Err::<(), _>(
                        policy_fatal("policy_execution_record_mismatch", "commit_policy_outcome"),
                    ) && final(self)@ == old(self)@
                },
            },
    {
        let input = match &data.outcome {
            PolicyExecutionOutcome::Succeeded { .. } => PolicyExecutionInput::Succeeded,
            PolicyExecutionOutcome::Failed { failure } => if failure.reported_success {
                PolicyExecutionInput::Succeeded
            } else {
                PolicyExecutionInput::Failed {
                    error_code: failure.error_code.clone(),
                    class: failure.original_class,
                }
            },
        };
        let perf_context = match &data.outcome {
            PolicyExecutionOutcome::Succeeded { .. } => PerformanceContext::unavailable(1),
            PolicyExecutionOutcome::Failed { failure } => failure.perf_context.copy(),
        };
        let expected = self.preview_execution(
            catalog,
            intent,
            admission,
            data.observed_at_unix_ms,
            &input,
            &perf_context,
        )?;
        if !same_execution(&expected, data) {
            return Err(fatal("policy_execution_record_mismatch", "commit_policy_outcome"));
        }
        let runtime_ms: u64 = match &data.outcome {
            PolicyExecutionOutcome::Succeeded { runtime_ms } => *runtime_ms,
            PolicyExecutionOutcome::Failed { failure } => failure.runtime_ms,
        };
        let (task_runtime_used_ms, activity_runtime_used_ms) = actual_runtime_totals(
            intent,
            admission,
            runtime_ms,
        )?;
        self.task_runtime.insert(
            window_key(&intent.task_id, &intent.instance_id, &admission.activity.window_id),
            task_runtime_used_ms,
        );
        self.activity_runtime.insert(
            window_key(
                &admission.activity.profile_id,
                &intent.instance_id,
                &admission.activity.window_id,
            ),
            activity_runtime_used_ms,
        );
        let key = pair_key(&intent.task_id, &intent.instance_id);
        match &data.outcome {
            PolicyExecutionOutcome::Succeeded { .. } => {
                let _ = self.failure_streaks.remove(&key);
            },
            PolicyExecutionOutcome::Failed { failure } => {
                self.failure_streaks.insert(
                    key,
                    FailureStreak {
                        error_code: failure.error_code.clone(),
                        class: failure.original_class,
                        count: failure.consecutive_same_error,
                        escalation_streak: failure.escalation_streak,
                    },
                );
            },
        }
        assert(self@.failure_streaks =~= old(self)@.after_execution(
            intent@,
            admission@,
            data@,
        ).failure_streaks);
        Ok(())
    }
}

/// The record of an execution is the one that replaying it gives, so that a
/// state that has not changed accepts it.
pub proof fn law_previewed_execution_commits(
    state: ControlView,
    catalog: PolicyCatalog,
    intent: IntentView,
    admission: AdmissionView,
    observed_at_unix_ms: u64,
    input: InputView,
    perf_context: ContextView,
)
    ensures
        state.execution(catalog, intent, admission, observed_at_unix_ms, input, perf_context)
            matches Ok(data) ==> state.replayed_execution(catalog, intent, admission, data) == Ok::<
            ExecutionView,
            RuntimeHostError,
        >(data),
{
}

/// A task marked sensitive is never retried on its own.
pub proof fn law_sensitive_task_is_not_retried(
    state: ControlView,
    catalog: PolicyCatalog,
    intent: IntentView,
    admission: AdmissionView,
    observed_at_unix_ms: u64,
    input: InputView,
    perf_context: ContextView,
)
    requires
        located(catalog, intent) is Ok,
        catalog.tasks@[located(catalog, intent)->Ok_0.0].sensitive,
    ensures
        state.execution(catalog, intent, admission, observed_at_unix_ms, input, perf_context)
            matches Ok(data) ==> (data.outcome matches OutcomeView::Failed { failure } ==> {
            &&& failure.effective_class == PolicyFailureClass::Severe
            &&& failure.disposition == PolicyFailureDisposition::PausedTask
            &&& failure.retry_at_unix_ms is None
        }),
{
}

/// A streak only counts failures of the same class with the same code.
pub proof fn law_streak_requires_same_failure(
    task: TaskSpec,
    previous: Option<StreakView>,
    error_code: Seq<char>,
    class: PolicyFailureClass,
    reported_success: bool,
    observed_at_unix_ms: u64,
    runtime_ms: u64,
    perf_context: ContextView,
)
    requires
        previous matches Some(streak) ==> streak.error_code != error_code || streak.class
            != class,
    ensures
        classified(
            task,
            previous,
            error_code,
            class,
            reported_success,
            observed_at_unix_ms,
            runtime_ms,
            perf_context,
        ) matches Ok(failure) ==> failure.consecutive_same_error == 1 && failure.escalation_streak
            <= 1,
{
}

/// Pressure on the host spares a recoverable failure the escalation, but its
/// retries are counted all the same and end at the retry limit.
pub proof fn law_pressure_spares_escalation_only(
    task: TaskSpec,
    previous: StreakView,
    error_code: Seq<char>,
    observed_at_unix_ms: u64,
    runtime_ms: u64,
    perf_context: ContextView,
)
    requires
        !task.sensitive,
        perf_context.pressures.len() > 0,
        previous.error_code == error_code,
        previous.class == PolicyFailureClass::Recoverable,
    ensures
        classified(
            task,
            Some(previous),
            error_code,
            PolicyFailureClass::Recoverable,
            false,
            observed_at_unix_ms,
            runtime_ms,
            perf_context,
        ) matches Ok(failure) ==> {
            &&& failure.performance_tax_exempt
            &&& failure.escalation_streak == previous.escalation_streak
            &&& failure.consecutive_same_error == previous.count + 1
            &&& failure.retry_at_unix_ms is Some ==> failure.consecutive_same_error
                <= task.on_failure.retry_limit
        },
{
}

/// A retry comes after a delay of at least one millisecond, unless the task
/// allows none, and never later than the task allows.
pub proof fn law_retry_delay_is_bounded(task: TaskSpec, attempt: u16)
    ensures
        backoff(task, attempt) <= task.next_run_clamp_ms,
        task.next_run_clamp_ms > 0 ==> backoff(task, attempt) > 0,
{
    let first = if task.on_failure.retry_backoff_ms == 0 {
        1
    } else {
        task.on_failure.retry_backoff_ms as int
    };
    let doublings = if attempt == 0 {
        0
    } else {
        smaller_int(attempt - 1, 63)
    };
    lemma_pow2_pos(doublings as nat);
    assert(first * pow2(doublings as nat) > 0) by (nonlinear_arith)
        requires
            first > 0,
            pow2(doublings as nat) > 0,
    ;
}

/// Once an execution counts, the runtime budgets hold its real runtime in
/// place of what was reserved for it.
pub proof fn law_actual_runtime_replaces_reservation(
    state: ControlView,
    intent: IntentView,
    admission: AdmissionView,
    data: ExecutionView,
)
    requires
        runtime_totals(
            intent.expected_duration_ms,
            admission,
            outcome_runtime(data.outcome),
        ) is Ok,
    ensures
        state.after_execution(intent, admission, data).task_runtime[(
            intent.task_id,
            (intent.instance_id, admission.activity.window_id),
        )] == admission.budget.task_runtime_reserved_ms - intent.expected_duration_ms
            + outcome_runtime(data.outcome),
        state.after_execution(intent, admission, data).activity_runtime[(
            admission.activity.profile_id,
            (intent.instance_id, admission.activity.window_id),
        )] == admission.budget.activity_runtime_reserved_ms - intent.expected_duration_ms
            + outcome_runtime(data.outcome),
{
}

/// A success ends the streak of its task on its instance: once it is
/// committed no streak is held for that pair, and the next failure of that
/// pair, whatever its code and class, counts as the first.
pub proof fn law_success_ends_the_streak(
    state: ControlView,
    catalog: PolicyCatalog,
    intent: IntentView,
    admission: AdmissionView,
    data: ExecutionView,
    next: IntentView,
    next_admission: AdmissionView,
    observed_at_unix_ms: u64,
    input: InputView,
    perf_context: ContextView,
)
    requires
        data.outcome is Succeeded,
        next.task_id == intent.task_id,
        next.instance_id == intent.instance_id,
    ensures
        ({
            let after = state.after_execution(intent, admission, data);
            &&& !after.failure_streaks.contains_key((intent.task_id, intent.instance_id))
            &&& after.execution(
                catalog,
                next,
                next_admission,
                observed_at_unix_ms,
                input,
                perf_context,
            ) matches Ok(record) ==> (record.outcome matches OutcomeView::Failed { failure } ==> {
                &&& failure.consecutive_same_error == 1
                &&& failure.escalation_streak <= 1
            })
        }),
{
}

/// Once a failure is committed, the next failure of that task on that instance
/// counts one more where it is of the same code and class, and counts as the
/// first where it is not. It escalates one step more unless it is exempt.
pub proof fn law_failure_goes_on_with_the_streak(
    state: ControlView,
    catalog: PolicyCatalog,
    intent: IntentView,
    admission: AdmissionView,
    data: ExecutionView,
    next: IntentView,
    next_admission: AdmissionView,
    observed_at_unix_ms: u64,
    input: InputView,
    perf_context: ContextView,
)
    requires
        data.outcome is Failed,
        next.task_id == intent.task_id,
        next.instance_id == intent.instance_id,
    ensures
        ({
            let first = data.outcome->failure;
            let after = state.after_execution(intent, admission, data);
            after.execution(
                catalog,
                next,
                next_admission,
                observed_at_unix_ms,
                input,
                perf_context,
            ) matches Ok(record) ==> (record.outcome matches OutcomeView::Failed { failure } ==> {
                let alike = failure.error_code == first.error_code && failure.original_class
                    == first.original_class;
                let step = if failure.performance_tax_exempt {
                    0int
                } else {
                    1
                };
                &&& failure.consecutive_same_error == if alike {
                    first.consecutive_same_error + 1
                } else {
                    1
                }
                &&& failure.escalation_streak == step + if alike {
                    first.escalation_streak as int
                } else {
                    0
                }
            })
        }),
{
}

/// What an execution of one pair of task and instance leaves of the streaks of
/// the others, of the daily and window counters and of the rests is what was
/// there, and the runtime of other windows too.
pub proof fn law_execution_touches_its_own_pair_only(
    state: ControlView,
    intent: IntentView,
    admission: AdmissionView,
    data: ExecutionView,
    pair: PairId,
    window: WindowId,
)
    ensures
        ({
            let after = state.after_execution(intent, admission, data);
            &&& pair != (intent.task_id, intent.instance_id) ==> (
            after.failure_streaks.contains_key(pair) == state.failure_streaks.contains_key(pair)
                && after.failure_streaks[pair] == state.failure_streaks[pair])
            &&& window != (intent.task_id, (intent.instance_id, admission.activity.window_id))
                ==> held(after.task_runtime, window, 0) == held(state.task_runtime, window, 0)
            &&& window != (
                admission.activity.profile_id,
                (intent.instance_id, admission.activity.window_id),
            ) ==> held(after.activity_runtime, window, 0) == held(state.activity_runtime, window, 0)
            &&& after.task_daily == state.task_daily && after.task_window == state.task_window
            &&& after.activity_daily == state.activity_daily && after.activity_window
                == state.activity_window
            &&& after.next_activity_eligible == state.next_activity_eligible
        }),
{
}

/// A failure is severe exactly where it was reported so, the task is
/// sensitive, or it has escalated as often as the task allows; a severe
/// failure pauses the task, and is not retried.
pub proof fn law_severe_failure_pauses_the_task(
    task: TaskSpec,
    previous: Option<StreakView>,
    error_code: Seq<char>,
    class: PolicyFailureClass,
    reported_success: bool,
    observed_at_unix_ms: u64,
    runtime_ms: u64,
    perf_context: ContextView,
)
    ensures
        classified(
            task,
            previous,
            error_code,
            class,
            reported_success,
            observed_at_unix_ms,
            runtime_ms,
            perf_context,
        ) matches Ok(failure) ==> {
            &&& failure.error_code == error_code && failure.original_class == class
            &&& failure.reported_success == reported_success
            &&& failure.runtime_ms == runtime_ms && failure.sensitive == task.sensitive
            &&& failure.perf_context == perf_context
            &&& failure.effective_class == PolicyFailureClass::Severe <==> class
                == PolicyFailureClass::Severe || task.sensitive || failure.escalation_streak
                >= task.on_failure.escalation_threshold
            &&& failure.effective_class == PolicyFailureClass::Severe ==> failure.disposition
                == PolicyFailureDisposition::PausedTask && failure.retry_at_unix_ms is None
                && failure.retry_attempt == 0
        },
{
}

/// A failure that is not severe is retried as often as the task allows, each
/// time after the delay of that attempt; after that the task goes on or is
/// paused as it declares.
pub proof fn law_recoverable_failure_is_retried(
    task: TaskSpec,
    previous: Option<StreakView>,
    error_code: Seq<char>,
    class: PolicyFailureClass,
    reported_success: bool,
    observed_at_unix_ms: u64,
    runtime_ms: u64,
    perf_context: ContextView,
)
    ensures
        classified(
            task,
            previous,
            error_code,
            class,
            reported_success,
            observed_at_unix_ms,
            runtime_ms,
            perf_context,
        ) matches Ok(failure) ==> (failure.effective_class != PolicyFailureClass::Severe ==> {
            let allowed = failure.consecutive_same_error <= task.on_failure.retry_limit;
            &&& failure.disposition == PolicyFailureDisposition::RetryScheduled <==> allowed
            &&& failure.retry_at_unix_ms is Some <==> allowed
            &&& allowed ==> failure.retry_attempt == failure.consecutive_same_error
                && failure.retry_at_unix_ms->0 == observed_at_unix_ms + backoff(
                task,
                failure.retry_attempt,
            )
            &&& !allowed ==> failure.retry_attempt == 0 && failure.disposition == if
                task.on_failure.action == FailureAction::Continue {
                PolicyFailureDisposition::Continue
            } else {
                PolicyFailureDisposition::PausedTask
            }
        }),
{
}

/// Only a recoverable failure of a task that is not sensitive, under pressure
/// on the host, is spared the escalation.
pub proof fn law_only_pressure_exempts(
    task: TaskSpec,
    previous: Option<StreakView>,
    error_code: Seq<char>,
    class: PolicyFailureClass,
    reported_success: bool,
    observed_at_unix_ms: u64,
    runtime_ms: u64,
    perf_context: ContextView,
)
    ensures
        classified(
            task,
            previous,
            error_code,
            class,
            reported_success,
            observed_at_unix_ms,
            runtime_ms,
            perf_context,
        ) matches Ok(failure) ==> (failure.performance_tax_exempt <==> {
            &&& class == PolicyFailureClass::Recoverable
            &&& !task.sensitive
            &&& perf_context.pressures.len() > 0
        }),
{
}

/// The first retry comes after the delay that the task declares, and after a
/// millisecond where it declares none; every further one, up to the
/// sixty-fourth, after twice the delay of the one before; and none later than
/// the task allows.
pub proof fn law_retry_delay_doubles(task: TaskSpec, attempt: u16)
    requires
        1 <= attempt < 64,
    ensures
        ({
            let longest = task.next_run_clamp_ms as int;
            let declared = task.on_failure.retry_backoff_ms as int;
            let twice = 2 * backoff(task, attempt);
            &&& backoff(task, 1) == if declared == 0 {
                if longest == 0 {
                    0
                } else {
                    1
                }
            } else if declared > longest {
                longest
            } else {
                declared
            }
            &&& backoff(task, (attempt + 1) as u16) == if twice > longest {
                longest
            } else {
                twice
            }
        }),
{
    let first = if task.on_failure.retry_backoff_ms == 0 {
        1
    } else {
        task.on_failure.retry_backoff_ms as int
    };
    lemma2_to64();
    lemma_pow2_unfold(attempt as nat);
    let smaller = pow2((attempt - 1) as nat);
    let larger = pow2(attempt as nat);
    lemma_pow2_pos((attempt - 1) as nat);
    assert(larger == 2 * smaller);
    assert(first * larger == 2 * (first * smaller)) by (nonlinear_arith)
        requires
            larger == 2 * smaller,
    ;
    assert(first * pow2(0) == first);
    assert(first * smaller > 0) by (nonlinear_arith)
        requires
            first > 0,
            smaller > 0,
    ;
}

/// After the sixty-fourth attempt the delay stays as it is.
pub proof fn law_retry_delay_stops_growing(task: TaskSpec, attempt: u16)
    requires
        attempt >= 64,
    ensures
        backoff(task, attempt) == backoff(task, 64),
{
}

/// An execution that took a runtime budget over its limit is a severe failure
/// of its own code, whatever was reported, and tells whether a success was. Any
/// other execution is what was reported, with the time since its admission as
/// its runtime.
pub proof fn law_overrun_is_a_severe_failure(
    state: ControlView,
    catalog: PolicyCatalog,
    intent: IntentView,
    admission: AdmissionView,
    observed_at_unix_ms: u64,
    input: InputView,
    perf_context: ContextView,
)
    ensures
        state.execution(catalog, intent, admission, observed_at_unix_ms, input, perf_context)
            matches Ok(data) ==> {
            let budget = admission.budget;
            let runtime = observed_at_unix_ms - admission.activity.admitted_at_unix_ms;
            let overrun = budget.task_runtime_reserved_ms - intent.expected_duration_ms + runtime
                > budget.task_runtime_limit_ms || budget.activity_runtime_reserved_ms
                - intent.expected_duration_ms + runtime > budget.activity_runtime_limit_ms;
            &&& runtime >= 0
            &&& data.decision_id == intent.decision_id && data.task_id == intent.task_id
            &&& data.instance_id == intent.instance_id && data.observed_at_unix_ms
                == observed_at_unix_ms
            &&& match data.outcome {
                OutcomeView::Succeeded { runtime_ms } => !overrun && input is Succeeded
                    && runtime_ms == runtime,
                OutcomeView::Failed { failure } => {
                    &&& failure.runtime_ms == runtime
                    &&& failure.perf_context == perf_context
                    &&& overrun ==> failure.error_code == "policy_runtime_budget_exceeded"@
                        && failure.original_class == PolicyFailureClass::Severe
                        && failure.disposition == PolicyFailureDisposition::PausedTask
                        && failure.reported_success == (input is Succeeded)
                    &&& !overrun ==> input == (InputView::Failed {
                        error_code: failure.error_code,
                        class: failure.original_class,
                    }) && !failure.reported_success
                },
            }
        },
{
}

/// A report is taken wherever the catalog knows the intent, the clock did not
/// go back, and the budgets hold what was reserved: then an execution without
/// an overrun that was reported as a success is one.
pub proof fn law_success_is_taken(
    state: ControlView,
    catalog: PolicyCatalog,
    intent: IntentView,
    admission: AdmissionView,
    observed_at_unix_ms: u64,
    perf_context: ContextView,
)
    requires
        located(catalog, intent) is Ok,
        observed_at_unix_ms >= admission.activity.admitted_at_unix_ms,
        intent.expected_duration_ms <= admission.budget.task_runtime_reserved_ms,
        intent.expected_duration_ms <= admission.budget.activity_runtime_reserved_ms,
        ({
            let runtime = observed_at_unix_ms - admission.activity.admitted_at_unix_ms
                - intent.expected_duration_ms;
            admission.budget.task_runtime_reserved_ms + runtime
                <= admission.budget.task_runtime_limit_ms
                && admission.budget.activity_runtime_reserved_ms + runtime
                <= admission.budget.activity_runtime_limit_ms
        }),
    ensures
        state.execution(
            catalog,
            intent,
            admission,
            observed_at_unix_ms,
            InputView::Succeeded,
            perf_context,
        ) matches Ok(data) && data.outcome is Succeeded,
{
}

/// An execution observed before its admission, and one whose admission does not
/// hold its reservation, are refused.
pub proof fn law_impossible_execution_is_refused(
    state: ControlView,
    catalog: PolicyCatalog,
    intent: IntentView,
    admission: AdmissionView,
    observed_at_unix_ms: u64,
    input: InputView,
    perf_context: ContextView,
)
    requires
        observed_at_unix_ms < admission.activity.admitted_at_unix_ms
            || intent.expected_duration_ms > admission.budget.task_runtime_reserved_ms
            || intent.expected_duration_ms > admission.budget.activity_runtime_reserved_ms,
    ensures
        state.execution(catalog, intent, admission, observed_at_unix_ms, input, perf_context) is Err,
        located(catalog, intent) is Ok && observed_at_unix_ms
            < admission.activity.admitted_at_unix_ms ==> state.execution(
            catalog,
            intent,
            admission,
            observed_at_unix_ms,
            input,
            perf_context,
        )->Err_0.code == "policy_execution_time_reversed",
{
}

} // verus!
