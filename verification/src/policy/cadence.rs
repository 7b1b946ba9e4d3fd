//! When the policy is evaluated again.

use vstd::prelude::*;

use crate::error::{RuntimeHostError, RuntimeHostResult};
use crate::policy::catalog::{fatal, policy_fatal, policy_request, request};

verus! {

#[derive(Debug, Clone, Copy, PartialEq, Eq, Structural)]
pub struct PolicyCadence {
    pub debounce_ms: u64,
    pub cooldown_ms: u64,
    pub reconciliation_interval_ms: u64,
    pub clock_jump_threshold_ms: u64,
}

impl Default for PolicyCadence {
    fn default() -> (cadence: Self)
        ensures
            cadence == (PolicyCadence {
                debounce_ms: 250,
                cooldown_ms: 1_000,
                reconciliation_interval_ms: 60_000,
                clock_jump_threshold_ms: 5_000,
            }),
    {
        PolicyCadence {
            debounce_ms: 250,
            cooldown_ms: 1_000,
            reconciliation_interval_ms: 60_000,
            clock_jump_threshold_ms: 5_000,
        }
    }
}

impl PolicyCadence {
    pub open spec fn valid(self) -> bool {
        0 < self.debounce_ms <= self.cooldown_ms <= self.reconciliation_interval_ms
            && self.clock_jump_threshold_ms > 0
    }

    pub fn validate(&self) -> (result: RuntimeHostResult<()>)
        ensures
            self.valid() ==> result is Ok,
            !self.valid() ==> result == Err::<(), _>(
                policy_fatal("invalid_policy_cadence", "initialize_policy_runtime"),
            ),
    {
        if self.debounce_ms == 0 || self.cooldown_ms < self.debounce_ms
            || self.reconciliation_interval_ms < self.cooldown_ms || self.clock_jump_threshold_ms
            == 0 {
            return Err(fatal("invalid_policy_cadence", "initialize_policy_runtime"));
        }
        Ok(())
    }
}

#[derive(Debug, Clone, Copy, PartialEq, Eq, Structural)]
pub enum PolicyTrigger {
    FactsChanged,
    ResourcesChanged,
    CatalogChanged,
    Reconciliation,
    Recovery,
    ClockObserved { previous_unix_ms: u64 },
}

#[derive(Debug, Clone, Copy, PartialEq, Eq, Structural)]
pub enum PolicyRecomputeKind {
    Incremental,
    Full,
    Deferred,
}

#[derive(Debug, Clone, Copy, PartialEq, Eq, Structural)]
pub enum PolicyRecomputeReason {
    Event,
    StartupOrRecovery,
    CatalogActivation,
    ClockJump,
    Reconciliation,
    Debounce,
    Cooldown,
}

#[derive(Debug, Clone, Copy, PartialEq, Eq, Structural)]
pub struct PolicyRecomputeDirective {
    pub kind: PolicyRecomputeKind,
    pub reason: PolicyRecomputeReason,
    pub eligible_at_unix_ms: u64,
}

/// When the policy was last looked at.
#[derive(Debug, Clone, Copy, PartialEq, Eq, Structural)]
pub struct PolicyCadenceState {
    pub config: PolicyCadence,
    pub full_recompute_required: bool,
    pub last_event_unix_ms: Option<u64>,
    pub last_full_recompute_unix_ms: Option<u64>,
    pub cooldown_until_unix_ms: u64,
}

/// The state after a trigger, and its directive or error.
pub type CadenceStep = (PolicyCadenceState, Result<PolicyRecomputeDirective, RuntimeHostError>);

impl PolicyCadenceState {
    /// A full evaluation now, for a reason.
    pub open spec fn after_full(self, now_unix_ms: u64, reason: PolicyRecomputeReason) ->
        CadenceStep {
        let looked_at = PolicyCadenceState {
            full_recompute_required: false,
            last_event_unix_ms: Some(now_unix_ms),
            last_full_recompute_unix_ms: Some(now_unix_ms),
            ..self
        };
        if now_unix_ms + self.config.cooldown_ms > u64::MAX {
            (looked_at, Err(policy_fatal("policy_time_overflow", "evaluate_full_policy_cycle")))
        } else {
            (
                PolicyCadenceState {
                    cooldown_until_unix_ms: (now_unix_ms + self.config.cooldown_ms) as u64,
                    ..looked_at
                },
                Ok(
                    PolicyRecomputeDirective {
                        kind: PolicyRecomputeKind::Full,
                        reason,
                        eligible_at_unix_ms: now_unix_ms,
                    },
                ),
            )
        }
    }

    /// The trigger shows that the clock jumped.
    pub open spec fn clock_jumped(self, trigger: PolicyTrigger, now_unix_ms: u64) -> bool {
        trigger matches PolicyTrigger::ClockObserved { previous_unix_ms } && (now_unix_ms
            < previous_unix_ms || now_unix_ms - previous_unix_ms
            > self.config.clock_jump_threshold_ms)
    }

    /// A reconciliation is due once its interval has passed since the last
    /// full evaluation.
    pub open spec fn after_reconciliation(self, now_unix_ms: u64) -> CadenceStep {
        let due = match self.last_full_recompute_unix_ms {
            Some(last) => if last + self.config.reconciliation_interval_ms <= u64::MAX {
                Some((last + self.config.reconciliation_interval_ms) as u64)
            } else {
                None
            },
            None => None,
        };
        match due {
            None => (
                self,
                Err(policy_fatal("policy_time_overflow", "evaluate_reconciliation_trigger")),
            ),
            Some(due) => if now_unix_ms >= due {
                self.after_full(now_unix_ms, PolicyRecomputeReason::Reconciliation)
            } else {
                (
                    self,
                    Ok(
                        PolicyRecomputeDirective {
                            kind: PolicyRecomputeKind::Deferred,
                            reason: PolicyRecomputeReason::Reconciliation,
                            eligible_at_unix_ms: due,
                        },
                    ),
                )
            },
        }
    }

    /// Until when another event is too close to the last one.
    pub open spec fn debounce_until(self, now_unix_ms: u64) -> u64 {
        match self.last_event_unix_ms {
            Some(last) => if last + self.config.debounce_ms <= u64::MAX {
                (last + self.config.debounce_ms) as u64
            } else {
                now_unix_ms
            },
            None => now_unix_ms,
        }
    }

    /// An ordinary event is put off while the cooldown lasts or when it
    /// follows another one too closely.
    pub open spec fn after_event(self, now_unix_ms: u64) -> CadenceStep {
        if now_unix_ms < self.cooldown_until_unix_ms {
            (
                self,
                Ok(
                    PolicyRecomputeDirective {
                        kind: PolicyRecomputeKind::Deferred,
                        reason: PolicyRecomputeReason::Cooldown,
                        eligible_at_unix_ms: self.cooldown_until_unix_ms,
                    },
                ),
            )
        } else {
            let noted = PolicyCadenceState { last_event_unix_ms: Some(now_unix_ms), ..self };
            if now_unix_ms < self.debounce_until(now_unix_ms) {
                (
                    noted,
                    Ok(
                        PolicyRecomputeDirective {
                            kind: PolicyRecomputeKind::Deferred,
                            reason: PolicyRecomputeReason::Debounce,
                            eligible_at_unix_ms: self.debounce_until(now_unix_ms),
                        },
                    ),
                )
            } else if now_unix_ms + self.config.cooldown_ms > u64::MAX {
                (noted, Err(policy_fatal("policy_time_overflow", "evaluate_policy_event")))
            } else {
                (
                    PolicyCadenceState {
                        cooldown_until_unix_ms: (now_unix_ms + self.config.cooldown_ms) as u64,
                        ..noted
                    },
                    Ok(
                        PolicyRecomputeDirective {
                            kind: PolicyRecomputeKind::Incremental,
                            reason: PolicyRecomputeReason::Event,
                            eligible_at_unix_ms: now_unix_ms,
                        },
                    ),
                )
            }
        }
    }

    /// The step that a trigger makes.
    pub open spec fn after_trigger(self, trigger: PolicyTrigger, now_unix_ms: u64) -> CadenceStep {
        if now_unix_ms == 0 {
            (self, Err(policy_request("invalid_policy_time", "evaluate_policy_cycle")))
        } else if self.full_recompute_required || trigger == PolicyTrigger::Recovery {
            self.after_full(now_unix_ms, PolicyRecomputeReason::StartupOrRecovery)
        } else if self.clock_jumped(trigger, now_unix_ms) {
            self.after_full(now_unix_ms, PolicyRecomputeReason::ClockJump)
        } else if trigger == PolicyTrigger::CatalogChanged {
            self.after_full(now_unix_ms, PolicyRecomputeReason::CatalogActivation)
        } else if trigger == PolicyTrigger::Reconciliation {
            self.after_reconciliation(now_unix_ms)
        } else {
            self.after_event(now_unix_ms)
        }
    }

    /// The first evaluation is a full one.
    pub fn new(config: PolicyCadence) -> (result: RuntimeHostResult<Self>)
        ensures
            config.valid() ==> result == Ok::<_, RuntimeHostError>(
                PolicyCadenceState {
                    config,
                    full_recompute_required: true,
                    last_event_unix_ms: None,
                    last_full_recompute_unix_ms: None,
                    cooldown_until_unix_ms: 0,
                },
            ),
            !config.valid() ==> result == Err::<Self, _>(
                policy_fatal("invalid_policy_cadence", "initialize_policy_runtime"),
            ),
    {
        config.validate()?;
        Ok(
            PolicyCadenceState {
                config,
                full_recompute_required: true,
                last_event_unix_ms: None,
                last_full_recompute_unix_ms: None,
                cooldown_until_unix_ms: 0,
            },
        )
    }

    pub fn catalog_changed(&mut self)
        ensures
            *final(self) == (PolicyCadenceState { full_recompute_required: true, ..*old(self) }),
    {
        self.full_recompute_required = true;
    }

    pub fn observe(&mut self, trigger: PolicyTrigger, now_unix_ms: u64) -> (result:
        RuntimeHostResult<PolicyRecomputeDirective>)
        ensures
            (*final(self), result) == old(self).after_trigger(trigger, now_unix_ms),
    {
        if now_unix_ms == 0 {
            return Err(request("invalid_policy_time", "evaluate_policy_cycle"));
        }
        if self.full_recompute_required || trigger == PolicyTrigger::Recovery {
            return self.full(now_unix_ms, PolicyRecomputeReason::StartupOrRecovery);
        }
        if let PolicyTrigger::ClockObserved { previous_unix_ms } = trigger {
            if now_unix_ms < previous_unix_ms || now_unix_ms - previous_unix_ms
                > self.config.clock_jump_threshold_ms {
                return self.full(now_unix_ms, PolicyRecomputeReason::ClockJump);
            }
        }
        if trigger == PolicyTrigger::CatalogChanged {
            return self.full(now_unix_ms, PolicyRecomputeReason::CatalogActivation);
        }
        if trigger == PolicyTrigger::Reconciliation {
            let due: Option<u64> = match self.last_full_recompute_unix_ms {
                Some(last) => last.checked_add(self.config.reconciliation_interval_ms),
                None => None,
            };
            return match due {
                None => Err(fatal("policy_time_overflow", "evaluate_reconciliation_trigger")),
                Some(due) => {
                    if now_unix_ms >= due {
                        self.full(now_unix_ms, PolicyRecomputeReason::Reconciliation)
                    } else {
                        Ok(
                            PolicyRecomputeDirective {
                                kind: PolicyRecomputeKind::Deferred,
                                reason: PolicyRecomputeReason::Reconciliation,
                                eligible_at_unix_ms: due,
                            },
                        )
                    }
                },
            };
        }
        if now_unix_ms < self.cooldown_until_unix_ms {
            return Ok(
                PolicyRecomputeDirective {
                    kind: PolicyRecomputeKind::Deferred,
                    reason: PolicyRecomputeReason::Cooldown,
                    eligible_at_unix_ms: self.cooldown_until_unix_ms,
                },
            );
        }
        let debounce_until: u64 = match self.last_event_unix_ms {
            Some(last) => match last.checked_add(self.config.debounce_ms) {
                Some(until) => until,
                None => now_unix_ms,
            },
            None => now_unix_ms,
        };
        self.last_event_unix_ms = Some(now_unix_ms);
        if now_unix_ms < debounce_until {
            return Ok(
                PolicyRecomputeDirective {
                    kind: PolicyRecomputeKind::Deferred,
                    reason: PolicyRecomputeReason::Debounce,
                    eligible_at_unix_ms: debounce_until,
                },
            );
        }
        match now_unix_ms.checked_add(self.config.cooldown_ms) {
            None => Err(fatal("policy_time_overflow", "evaluate_policy_event")),
            Some(until) => {
                self.cooldown_until_unix_ms = until;
                Ok(
                    PolicyRecomputeDirective {
                        kind: PolicyRecomputeKind::Incremental,
                        reason: PolicyRecomputeReason::Event,
                        eligible_at_unix_ms: now_unix_ms,
                    },
                )
            },
        }
    }

    fn full(&mut self, now_unix_ms: u64, reason: PolicyRecomputeReason) -> (result:
        RuntimeHostResult<PolicyRecomputeDirective>)
        ensures
            (*final(self), result) == old(self).after_full(now_unix_ms, reason),
    {
        self.full_recompute_required = false;
        self.last_event_unix_ms = Some(now_unix_ms);
        self.last_full_recompute_unix_ms = Some(now_unix_ms);
        match now_unix_ms.checked_add(self.config.cooldown_ms) {
            None => Err(fatal("policy_time_overflow", "evaluate_full_policy_cycle")),
            Some(until) => {
                self.cooldown_until_unix_ms = until;
                Ok(
                    PolicyRecomputeDirective {
                        kind: PolicyRecomputeKind::Full,
                        reason,
                        eligible_at_unix_ms: now_unix_ms,
                    },
                )
            },
        }
    }
}

/// The first evaluation after a start or a catalog change is a full one,
/// whatever triggers it.
pub proof fn law_change_forces_full_evaluation(
    state: PolicyCadenceState,
    trigger: PolicyTrigger,
    now_unix_ms: u64,
)
    requires
        state.full_recompute_required,
        now_unix_ms > 0,
        now_unix_ms + state.config.cooldown_ms <= u64::MAX,
    ensures
        ({
            let (after, step) = state.after_trigger(trigger, now_unix_ms);
            &&& step matches Ok(directive) && directive.kind == PolicyRecomputeKind::Full
            &&& !after.full_recompute_required
        }),
{
}

/// A deferred trigger becomes eligible later, and an evaluation is never put
/// off by one that was itself put off by the cooldown.
pub proof fn law_deferral_names_a_later_time(
    state: PolicyCadenceState,
    trigger: PolicyTrigger,
    now_unix_ms: u64,
)
    ensures
        ({
            let (after, step) = state.after_trigger(trigger, now_unix_ms);
            step matches Ok(directive) ==> directive.kind == PolicyRecomputeKind::Deferred ==> {
                &&& directive.eligible_at_unix_ms > now_unix_ms
                &&& after.cooldown_until_unix_ms == state.cooldown_until_unix_ms
                &&& directive.reason == PolicyRecomputeReason::Cooldown ==> after == state
            }
        }),
{
}

/// A trigger that tells of nothing but a change: facts, resources, or a clock
/// that went on as it should.
pub open spec fn is_ordinary(config: PolicyCadence, trigger: PolicyTrigger, now_unix_ms: u64) -> bool {
    match trigger {
        PolicyTrigger::FactsChanged | PolicyTrigger::ResourcesChanged => true,
        PolicyTrigger::ClockObserved { previous_unix_ms } => previous_unix_ms <= now_unix_ms
            <= previous_unix_ms + config.clock_jump_threshold_ms,
        _ => false,
    }
}

/// Every evaluation, full or incremental, starts a cooldown: an ordinary event
/// before its end is put off, and becomes eligible exactly `cooldown_ms` after
/// that evaluation.
pub proof fn law_every_evaluation_starts_a_cooldown(
    state: PolicyCadenceState,
    trigger: PolicyTrigger,
    now_unix_ms: u64,
    event: PolicyTrigger,
    later_unix_ms: u64,
)
    requires
        state.after_trigger(trigger, now_unix_ms).1 matches Ok(directive) && (directive.kind
            == PolicyRecomputeKind::Full || directive.kind == PolicyRecomputeKind::Incremental),
        is_ordinary(state.config, event, later_unix_ms),
        0 < later_unix_ms < now_unix_ms + state.config.cooldown_ms,
    ensures
        ({
            let after = state.after_trigger(trigger, now_unix_ms).0;
            let (kept, step) = after.after_trigger(event, later_unix_ms);
            &&& kept == after
            &&& step matches Ok(directive) && directive.kind == PolicyRecomputeKind::Deferred
                && directive.reason == PolicyRecomputeReason::Cooldown
                && directive.eligible_at_unix_ms == now_unix_ms + state.config.cooldown_ms
        }),
{
}

/// Once the cooldown of an evaluation is over, an ordinary event is evaluated
/// at once, and incrementally.
pub proof fn law_event_after_the_cooldown_is_evaluated(
    state: PolicyCadenceState,
    trigger: PolicyTrigger,
    now_unix_ms: u64,
    event: PolicyTrigger,
    later_unix_ms: u64,
)
    requires
        state.config.valid(),
        state.after_trigger(trigger, now_unix_ms).1 matches Ok(directive) && (directive.kind
            == PolicyRecomputeKind::Full || directive.kind == PolicyRecomputeKind::Incremental),
        is_ordinary(state.config, event, later_unix_ms),
        later_unix_ms >= now_unix_ms + state.config.cooldown_ms,
        later_unix_ms + state.config.cooldown_ms <= u64::MAX,
    ensures
        state.after_trigger(trigger, now_unix_ms).0.after_trigger(event, later_unix_ms).1
            matches Ok(directive) && directive.kind == PolicyRecomputeKind::Incremental
            && directive.reason == PolicyRecomputeReason::Event && directive.eligible_at_unix_ms
            == later_unix_ms,
{
}

/// An event that comes too soon after another one, outside of a cooldown, is
/// put off until `debounce_ms` after that one, and is itself the one that a
/// later event is measured from.
pub proof fn law_close_events_are_debounced(
    state: PolicyCadenceState,
    event: PolicyTrigger,
    now_unix_ms: u64,
)
    requires
        !state.full_recompute_required,
        is_ordinary(state.config, event, now_unix_ms),
        now_unix_ms > 0,
        now_unix_ms >= state.cooldown_until_unix_ms,
        state.last_event_unix_ms is Some,
        now_unix_ms < state.last_event_unix_ms->0 + state.config.debounce_ms <= u64::MAX,
    ensures
        ({
            let (after, step) = state.after_trigger(event, now_unix_ms);
            &&& after.last_event_unix_ms == Some(now_unix_ms)
            &&& step matches Ok(directive) && directive.kind == PolicyRecomputeKind::Deferred
                && directive.reason == PolicyRecomputeReason::Debounce
                && directive.eligible_at_unix_ms == state.last_event_unix_ms->0
                + state.config.debounce_ms
        }),
{
}

/// A recovery, a jump of the clock and a changed catalog are answered with a
/// full evaluation at once, cooldown or not, each for its own reason.
pub proof fn law_full_evaluations_do_not_wait(
    state: PolicyCadenceState,
    trigger: PolicyTrigger,
    now_unix_ms: u64,
)
    requires
        now_unix_ms > 0,
        now_unix_ms + state.config.cooldown_ms <= u64::MAX,
        match trigger {
            PolicyTrigger::Recovery | PolicyTrigger::CatalogChanged => true,
            PolicyTrigger::ClockObserved { previous_unix_ms } => now_unix_ms < previous_unix_ms
                || now_unix_ms > previous_unix_ms + state.config.clock_jump_threshold_ms,
            _ => false,
        },
    ensures
        state.after_trigger(trigger, now_unix_ms).1 matches Ok(directive) && directive.kind
            == PolicyRecomputeKind::Full && directive.eligible_at_unix_ms == now_unix_ms
            && directive.reason == if state.full_recompute_required || trigger
            == PolicyTrigger::Recovery {
            PolicyRecomputeReason::StartupOrRecovery
        } else if trigger == PolicyTrigger::CatalogChanged {
            PolicyRecomputeReason::CatalogActivation
        } else {
            PolicyRecomputeReason::ClockJump
        },
{
}

/// A reconciliation is a full evaluation once its interval has passed since
/// the last full one, and is put off until exactly then before; an incremental
/// evaluation in between does not move it.
pub proof fn law_reconciliation_keeps_its_interval(
    state: PolicyCadenceState,
    trigger: PolicyTrigger,
    now_unix_ms: u64,
    event: PolicyTrigger,
    between_unix_ms: u64,
    later_unix_ms: u64,
)
    requires
        state.after_trigger(trigger, now_unix_ms).1 matches Ok(directive) && directive.kind
            == PolicyRecomputeKind::Full,
        is_ordinary(state.config, event, between_unix_ms),
        now_unix_ms + state.config.reconciliation_interval_ms <= u64::MAX,
        later_unix_ms > 0,
        later_unix_ms + state.config.cooldown_ms <= u64::MAX,
    ensures
        ({
            let full = state.after_trigger(trigger, now_unix_ms).0;
            let due = now_unix_ms + state.config.reconciliation_interval_ms;
            let direct = full.after_trigger(PolicyTrigger::Reconciliation, later_unix_ms).1;
            let after_event = full.after_trigger(event, between_unix_ms).0.after_trigger(
                PolicyTrigger::Reconciliation,
                later_unix_ms,
            ).1;
            &&& direct == after_event
            &&& direct matches Ok(directive) && directive.reason
                == PolicyRecomputeReason::Reconciliation && if later_unix_ms >= due {
                directive.kind == PolicyRecomputeKind::Full && directive.eligible_at_unix_ms
                    == later_unix_ms
            } else {
                directive.kind == PolicyRecomputeKind::Deferred && directive.eligible_at_unix_ms
                    == due
            }
        }),
{
}

/// No trigger changes the configuration or asks for a full evaluation by
/// itself, and a trigger at no time at all changes nothing.
pub proof fn law_triggers_keep_the_configuration(
    state: PolicyCadenceState,
    trigger: PolicyTrigger,
    now_unix_ms: u64,
)
    ensures
        ({
            let (after, step) = state.after_trigger(trigger, now_unix_ms);
            &&& after.config == state.config
            &&& after.full_recompute_required ==> state.full_recompute_required
            &&& now_unix_ms == 0 ==> after == state && step is Err
            &&& step is Ok && !state.full_recompute_required ==> (step->Ok_0.kind
                == PolicyRecomputeKind::Incremental ==> after.last_full_recompute_unix_ms
                == state.last_full_recompute_unix_ms)
        }),
{
}

/// A cadence is valid only where its periods are in order and none is empty:
/// events are gathered for no longer than the cooldown, and the cooldown is no
/// longer than the interval of reconciliation.
pub proof fn law_valid_cadence_is_in_order(cadence: PolicyCadence)
    ensures
        cadence.valid() <==> {
            &&& cadence.debounce_ms > 0
            &&& cadence.cooldown_ms >= cadence.debounce_ms
            &&& cadence.reconciliation_interval_ms >= cadence.cooldown_ms
            &&& cadence.clock_jump_threshold_ms > 0
        },
{
}

} // verus!
