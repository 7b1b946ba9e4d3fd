//! The policy host: the active generation, the dispatches that are known, and
//! the budgets that they draw on.

use vstd::prelude::*;

use crate::error::{RuntimeHostError, RuntimeHostResult};
use crate::ids::OwnerEpoch;
use crate::ordered_map::OrderedMap;
use crate::policy::cadence::{
    PolicyCadence, PolicyCadenceState, PolicyRecomputeDirective, PolicyRecomputeKind, PolicyTrigger,
};
use crate::policy::catalog::{
    fatal, policy_fatal, policy_request, request, DispatchIntent, IntentView, PolicyCatalog,
    ScopeSelector, TaskSpec,
};
use crate::policy::control::{admission_is, drawn_seed, PolicyAdmissionRecord};
use crate::policy::cost::{
    all_catalog_records, measurement_overflow, policy_evaluation_cost, total_work,
    EvaluationInputCounts, PolicyEvaluationCost, PolicyEvaluationExecution,
    PolicyEvaluationMeasurement,
};
use crate::policy::detection::{PolicyPlanningSignalEventData, QuotaView};
use crate::policy::dispatch::SeenDispatch;
use crate::policy::evaluation::{DecisionReasonChain, EvaluationFacts, PolicyEvaluation};
use crate::policy::generation::{
    load_active, pointer_error, CatalogGeneration, CatalogShelf, LoadedCatalog, PointerDocument,
    CATALOG_STATE_SCHEMA,
};
use crate::policy::planner::{
    instances_of, signal_events, signal_views, DetectionPlanner, PlannedSignals, PlannerView,
    PlanningGround,
};
use crate::policy::recovery::{
    event_views, generation_views, in_order, pin_generations, recover_dispatches, DispatchReplay,
    PolicyEvent, ReplayView,
};
use crate::policy::signals::PlanningProjections;
use crate::procedure_manifest::{chain_views, intent_views, ProcedureManifest};
use crate::text::{same_text, same_texts, texts};

verus! {

/// Runtime-owned policy state.
pub struct PolicyHost {
    pub shelf: CatalogShelf,
    /// The hash of the active generation.
    pub active: Option<String>,
    pub cadence: PolicyCadenceState,
    pub dispatches: DispatchReplay,
    /// The generations that dispatches which are not over depend on.
    pub pinned: OrderedMap<String, CatalogGeneration>,
    pub planner: DetectionPlanner,
}

/// Correlates an admission request; Runtime rebuilds approval authority and current time.
#[derive(Debug, Clone, PartialEq, Eq)]
pub struct PolicyAdmissionContext {
    pub fact_ledger_position: u64,
    pub fact_snapshot_id: String,
    pub approval_fact_ids: Vec<String>,
    pub fencing_owner_epoch: OwnerEpoch,
    pub now_unix_ms: u64,
}

/// What became of a dispatch request. The token is the lease that was granted.
#[derive(Debug, Clone)]
pub enum PolicyDispatchAdmission {
    Granted {
        decision_id: String,
        catalog: CatalogGeneration,
        token: u128,
        admission: Box<PolicyAdmissionRecord>,
    },
    ReplaySuppressed {
        decision_id: String,
        catalog: CatalogGeneration,
        original_intent_sequence: u64,
    },
}

#[derive(Debug, Clone)]
pub struct PolicyCycle {
    pub directive: PolicyRecomputeDirective,
    pub evaluation: Option<PolicyEvaluation>,
    pub pending_dispatch_intents: Vec<DispatchIntent>,
    pub detection_planning_signals: Vec<PolicyPlanningSignalEventData>,
    pub measurement: Option<PolicyEvaluationMeasurement>,
}

/// Whether the policy is evaluated now.
#[derive(Debug, Clone, Copy, PartialEq, Eq, Structural)]
pub enum EvaluationStart {
    Deferred(PolicyRecomputeDirective),
    Run { directive: PolicyRecomputeDirective, cost: PolicyEvaluationCost },
}

/// The error of an intent that the active catalog does not stand for.
pub open spec fn intent_mismatch(
    catalog: PolicyCatalog,
    task: TaskSpec,
    intent: IntentView,
) -> bool {
    ||| task.operation_id@ != intent.operation_id
    ||| task.procedure_ref@ != intent.procedure_ref
    ||| task.expected_duration_ms != intent.expected_duration_ms
    ||| texts(task.yield_points@) != intent.yield_points
    ||| task.load_profile != intent.load_profile
    ||| task.loop_budget.daily_limit != intent.prerequisites.daily_limit
    ||| task.loop_budget.window_iteration_limit != intent.prerequisites.window_iteration_limit
    ||| task.loop_budget.max_runtime_ms != intent.prerequisites.max_runtime_ms
    ||| intent.prerequisites.urgency_milli > 1_000
    ||| catalog.profile_position(intent.prerequisites.activity_profile_id) is None
    ||| texts(catalog.approval_refs@) != intent.approval_refs
    ||| (task.scope matches ScopeSelector::Instance { instance_id } && instance_id@
        != intent.instance_id)
}

/// Every approval that an intent refers to is among the given ones.
pub open spec fn approvals_given(approvals: Seq<Seq<char>>, given: Seq<Seq<char>>) -> bool {
    forall|i: int| 0 <= i < approvals.len() ==> given.contains(#[trigger] approvals[i])
}

pub open spec fn dispatch_refusal(code: &'static str) -> RuntimeHostError {
    policy_request(code, "validate_policy_dispatch")
}

/// The error of an intent that may not be dispatched under a generation.
pub open spec fn dispatch_error(
    active: LoadedCatalog,
    intent: IntentView,
    reason_chain: DecisionReasonChain,
    context: PolicyAdmissionContext,
    owner_epoch: OwnerEpoch,
    ledger_high_watermark: u64,
) -> Option<RuntimeHostError> {
    let task = active.compiled.task_position(intent.task_id);
    let prerequisites = intent.prerequisites;
    if intent.catalog_hash != active.generation.catalog_hash@ || intent.catalog_version
        != active.generation.catalog_version {
        Some(dispatch_refusal("policy_catalog_mismatch"))
    } else if task is None {
        Some(dispatch_refusal("policy_task_missing"))
    } else if intent_mismatch(active.compiled, active.compiled.tasks@[task->0], intent) {
        Some(dispatch_refusal("policy_intent_catalog_mismatch"))
    } else if intent.input_ledger_position != context.fact_ledger_position
        || intent.input_ledger_position > ledger_high_watermark || intent.fact_snapshot_id
        != context.fact_snapshot_id@ {
        Some(dispatch_refusal("policy_fact_position_mismatch"))
    } else if reason_chain.id@ != intent.reason_chain_id || reason_chain.decision_id@
        != intent.decision_id || reason_chain.reasons@.len() == 0 {
        Some(dispatch_refusal("policy_reason_chain_mismatch"))
    } else if !approvals_given(intent.approval_refs, texts(context.approval_fact_ids@)) {
        Some(dispatch_refusal("policy_approval_fact_missing"))
    } else if context.fencing_owner_epoch != owner_epoch || !prerequisites.fencing_required {
        Some(dispatch_refusal("policy_fencing_mismatch"))
    } else if context.now_unix_ms < prerequisites.evaluated_at_unix_ms || (
    prerequisites.facts_fresh_until_unix_ms is Some && context.now_unix_ms
        > prerequisites.facts_fresh_until_unix_ms->0) {
        Some(dispatch_refusal("policy_facts_stale"))
    } else if prerequisites.daily_limit == 0 || prerequisites.window_iteration_limit == 0
        || prerequisites.max_runtime_ms == 0 || intent.expected_duration_ms
        > prerequisites.max_runtime_ms {
        Some(dispatch_refusal("policy_budget_exhausted"))
    } else {
        None
    }
}

fn lists_text(list: &Vec<String>, text: &str) -> (found: bool)
    ensures
        found == texts(list@).contains(text@),
{
    let mut index: usize = 0;
    while index < list.len()
        invariant
            index <= list.len(),
            forall|i: int| 0 <= i < index ==> texts(list@)[i] != text@,
        decreases list.len() - index,
    {
        assert(texts(list@)[index as int] == list@[index as int]@);
        if same_text(list[index].as_str(), text) {
            return true;
        }
        index += 1;
    }
    false
}

fn all_given(approvals: &Vec<String>, given: &Vec<String>) -> (all: bool)
    ensures
        all == approvals_given(texts(approvals@), texts(given@)),
{
    let mut index: usize = 0;
    while index < approvals.len()
        invariant
            index <= approvals.len(),
            forall|i: int|
                0 <= i < index ==> texts(given@).contains(#[trigger] texts(approvals@)[i]),
        decreases approvals.len() - index,
    {
        assert(texts(approvals@)[index as int] == approvals@[index as int]@);
        if !lists_text(given, approvals[index].as_str()) {
            return false;
        }
        index += 1;
    }
    true
}

fn differs_from_catalog(catalog: &PolicyCatalog, task: &TaskSpec, intent: &DispatchIntent) -> (differs:
    bool)
    ensures
        differs == intent_mismatch(*catalog, *task, intent@),
{
    let other_instance = match &task.scope {
        ScopeSelector::Instance { instance_id } => !same_text(
            instance_id.as_str(),
            intent.instance_id.as_str(),
        ),
        _ => false,
    };
    !same_text(task.operation_id.as_str(), intent.operation_id.as_str()) || !same_text(
        task.procedure_ref.as_str(),
        intent.procedure_ref.as_str(),
    ) || task.expected_duration_ms != intent.expected_duration_ms || !same_texts(
        &task.yield_points,
        &intent.yield_points,
    ) || task.load_profile != intent.load_profile || task.loop_budget.daily_limit
        != intent.prerequisites.daily_limit || task.loop_budget.window_iteration_limit
        != intent.prerequisites.window_iteration_limit || task.loop_budget.max_runtime_ms
        != intent.prerequisites.max_runtime_ms || intent.prerequisites.urgency_milli > 1_000
        || catalog.find_profile(intent.prerequisites.activity_profile_id.as_str()).is_none()
        || !same_texts(&catalog.approval_refs, &intent.approval_refs) || other_instance
}

/// Checks an intent against a generation, its reasons, and the state of the
/// runtime it relies on.
pub fn check_dispatch(
    active: &LoadedCatalog,
    intent: &DispatchIntent,
    reason_chain: &DecisionReasonChain,
    context: &PolicyAdmissionContext,
    owner_epoch: OwnerEpoch,
    ledger_high_watermark: u64,
) -> (result: RuntimeHostResult<()>)
    ensures
        match dispatch_error(
            *active,
            intent@,
            *reason_chain,
            *context,
            owner_epoch,
            ledger_high_watermark,
        ) {
            Some(error) => result == Err::<(), _>(error),
            None => result == Ok::<(), RuntimeHostError>(()),
        },
{
    if !same_text(intent.catalog_hash.as_str(), active.generation.catalog_hash.as_str())
        || intent.catalog_version != active.generation.catalog_version {
        return Err(request("policy_catalog_mismatch", "validate_policy_dispatch"));
    }
    let task = match active.compiled.find_task(intent.task_id.as_str()) {
        Some(index) => &active.compiled.tasks[index],
        None => {
            return Err(request("policy_task_missing", "validate_policy_dispatch"));
        },
    };
    if differs_from_catalog(&active.compiled, task, intent) {
        return Err(request("policy_intent_catalog_mismatch", "validate_policy_dispatch"));
    }
    if intent.input_ledger_position != context.fact_ledger_position || intent.input_ledger_position
        > ledger_high_watermark || !same_text(
        intent.fact_snapshot_id.as_str(),
        context.fact_snapshot_id.as_str(),
    ) {
        return Err(request("policy_fact_position_mismatch", "validate_policy_dispatch"));
    }
    if !same_text(reason_chain.id.as_str(), intent.reason_chain_id.as_str()) || !same_text(
        reason_chain.decision_id.as_str(),
        intent.decision_id.as_str(),
    ) || reason_chain.reasons.len() == 0 {
        return Err(request("policy_reason_chain_mismatch", "validate_policy_dispatch"));
    }
    if !all_given(&intent.approval_refs, &context.approval_fact_ids) {
        return Err(request("policy_approval_fact_missing", "validate_policy_dispatch"));
    }
    if context.fencing_owner_epoch != owner_epoch || !intent.prerequisites.fencing_required {
        return Err(request("policy_fencing_mismatch", "validate_policy_dispatch"));
    }
    let expired = match intent.prerequisites.facts_fresh_until_unix_ms {
        Some(expires) => context.now_unix_ms > expires,
        None => false,
    };
    if context.now_unix_ms < intent.prerequisites.evaluated_at_unix_ms || expired {
        return Err(request("policy_facts_stale", "validate_policy_dispatch"));
    }
    if intent.prerequisites.daily_limit == 0 || intent.prerequisites.window_iteration_limit == 0
        || intent.prerequisites.max_runtime_ms == 0 || intent.expected_duration_ms
        > intent.prerequisites.max_runtime_ms {
        return Err(request("policy_budget_exhausted", "validate_policy_dispatch"));
    }
    Ok(())
}

/// The intents whose decisions have not been seen, in order.
pub open spec fn unseen_intents(
    intents: Seq<IntentView>,
    seen: Map<Seq<char>, SeenDispatch>,
) -> Seq<IntentView> {
    intents.filter(|intent: IntentView| !seen.contains_key(intent.decision_id))
}

impl PolicyHost {
    pub open spec fn wf(&self) -> bool {
        &&& self.shelf.wf()
        &&& self.active is Some ==> self.shelf.loaded@.contains_key((self.active->0)@)
        &&& self.dispatches.wf()
        &&& self.dispatches@.wf(self.shelf)
        &&& self.pinned.wf()
        &&& self.planner.wf()
    }

    /// The active generation.
    pub open spec fn active_catalog(&self) -> Option<LoadedCatalog> {
        match self.active {
            Some(hash) => Some(self.shelf.loaded@[hash@]),
            None => None,
        }
    }

    fn active_ref(&self) -> (active: Option<&LoadedCatalog>)
        requires
            self.wf(),
        ensures
            match active {
                Some(loaded) => self.active_catalog() == Some(*loaded) && loaded.wf(),
                None => self.active_catalog() is None,
            },
    {
        match &self.active {
            Some(hash) => self.shelf.loaded.get(hash),
            None => None,
        }
    }

    /// Opens the policy state: the active generation is looked up and
    /// everything else rebuilt from the ledger.
    pub fn open(
        shelf: CatalogShelf,
        pointer: Option<PointerDocument>,
        cadence: PolicyCadence,
        events: &Vec<PolicyEvent>,
        max_windows: usize,
        projections: PlanningProjections,
        latest: u64,
        signals: &Vec<(u64, Option<PolicyPlanningSignalEventData>)>,
    ) -> (result: RuntimeHostResult<Self>)
        requires
            shelf.wf(),
            projections.wf(),
        ensures
            ({
                let pointer_fault = match pointer {
                    None => None,
                    Some(document) => if document.schema_version@ != CATALOG_STATE_SCHEMA@ {
                        Some(
                            policy_fatal(
                                "catalog_pointer_version_unsupported",
                                "load_active_catalog",
                            ),
                        )
                    } else {
                        pointer_error(document.pointer, shelf, "load_active_catalog")
                    },
                };
                let replayed = ReplayView::empty().with_events(shelf, in_order(event_views(events@)));
                let planner = PlannerView {
                    quota: QuotaView {
                        windows: Map::empty(),
                        recency: Seq::empty(),
                        max_windows: max_windows as int,
                    },
                    projections: projections@,
                };
                let (recovered, planned) = planner.recovered(
                    shelf,
                    latest,
                    signal_events(signals@),
                );
                if pointer_fault is Some {
                    result matches Err(error) && error == pointer_fault->0
                } else if !cadence.valid() {
                    result matches Err(error) && error == policy_fatal(
                        "invalid_policy_cadence",
                        "initialize_policy_runtime",
                    )
                } else if replayed is Err {
                    result matches Err(error) && error == replayed->Err_0
                } else if planned is Err {
                    result matches Err(error) && error == planned->Err_0
                } else {
                    &&& result is Ok
                    &&& result->Ok_0.wf()
                    &&& result->Ok_0.shelf == shelf
                    &&& match pointer {
                        None => result->Ok_0.active is None,
                        Some(document) => result->Ok_0.active is Some && (result->Ok_0.active->0)@
                            == document.pointer->0.generation.catalog_hash@,
                    }
                    &&& result->Ok_0.cadence == (PolicyCadenceState {
                        config: cadence,
                        full_recompute_required: true,
                        last_event_unix_ms: None,
                        last_full_recompute_unix_ms: None,
                        cooldown_until_unix_ms: 0,
                    })
                    &&& result->Ok_0.dispatches@ == replayed->Ok_0
                    &&& generation_views(result->Ok_0.pinned@) == replayed->Ok_0.pinned(shelf)
                    &&& result->Ok_0.planner@ == recovered
                }
            }),
    {
        let active: Option<String> = match load_active(&pointer, &shelf)? {
            Some(loaded) => Some(loaded.generation.catalog_hash.clone()),
            None => None,
        };
        let cadence = PolicyCadenceState::new(cadence)?;
        let dispatches = recover_dispatches(&shelf, events)?;
        proof {
            assert forall|id: Seq<char>| #[trigger]
                dispatches.seen@.contains_key(id) implies shelf.lookup(
                dispatches.seen@[id].data.catalog_hash@,
            ) is Ok by {
                assert(dispatches@.seen.contains_key(id));
            }
        }
        let pinned = pin_generations(&shelf, &dispatches.seen)?;
        let mut planner = DetectionPlanner::new(max_windows, projections);
        planner.recover_planning_signals(&shelf, latest, signals)?;
        proof {
            assert(generation_views(pinned@) =~= dispatches@.pinned(shelf));
        }
        Ok(PolicyHost { shelf, active, cadence, dispatches, pinned, planner })
    }

    pub fn active_generation(&self) -> (generation: Option<CatalogGeneration>)
        requires
            self.wf(),
        ensures
            match self.active_catalog() {
                Some(active) => generation is Some && (generation->0)@ == active.generation@,
                None => generation is None,
            },
    {
        match self.active_ref() {
            Some(active) => Some(active.generation.copy()),
            None => None,
        }
    }

    /// Makes another stored generation active, provided that the one that was
    /// expected still is.
    pub fn switch_active(&mut self, hash: &str, expected_active_hash: Option<&str>) -> (result:
        RuntimeHostResult<()>)
        requires
            old(self).wf(),
        ensures
            final(self).wf(),
            final(self).shelf == old(self).shelf,
            final(self).dispatches == old(self).dispatches,
            final(self).pinned == old(self).pinned,
            final(self).planner == old(self).planner,
            ({
                let current = match old(self).active {
                    Some(active) => Some(active@),
                    None => None,
                };
                let expected = match expected_active_hash {
                    Some(expected) => Some(expected@),
                    None => None,
                };
                if current != expected {
                    *final(self) == *old(self) && result == Err::<(), _>(
                        policy_request("catalog_active_generation_changed", "switch_active_catalog"),
                    )
                } else {
                    match old(self).shelf.lookup(hash@) {
                        Err(error) => *final(self) == *old(self) && result == Err::<(), _>(error),
                        Ok(_) => {
                            &&& result == Ok::<(), RuntimeHostError>(())
                            &&& final(self).active is Some
                            &&& (final(self).active->0)@ == hash@
                            &&& final(self).cadence == (PolicyCadenceState {
                                full_recompute_required: true,
                                ..old(self).cadence
                            })
                        },
                    }
                }
            }),
    {
        let unchanged = match (&self.active, expected_active_hash) {
            (Some(active), Some(expected)) => same_text(active.as_str(), expected),
            (None, None) => true,
            _ => false,
        };
        if !unchanged {
            return Err(request("catalog_active_generation_changed", "switch_active_catalog"));
        }
        let _ = self.shelf.load_generation(hash)?;
        self.active = Some(hash.to_owned());
        self.cadence.catalog_changed();
        Ok(())
    }

    /// Decides whether the policy is evaluated now, and what that will cost.
    pub fn begin_evaluation(
        &mut self,
        trigger: PolicyTrigger,
        now_unix_ms: u64,
        inputs: &EvaluationInputCounts,
    ) -> (result: RuntimeHostResult<EvaluationStart>)
        requires
            old(self).wf(),
        ensures
            final(self).wf(),
            final(self).shelf == old(self).shelf,
            final(self).active == old(self).active,
            final(self).dispatches == old(self).dispatches,
            final(self).pinned == old(self).pinned,
            final(self).planner == old(self).planner,
            ({
                let (cadence, step) = old(self).cadence.after_trigger(trigger, now_unix_ms);
                &&& final(self).cadence == cadence
                &&& match step {
                    Err(error) => result == Err::<EvaluationStart, _>(error),
                    Ok(directive) => if directive.kind == PolicyRecomputeKind::Deferred {
                        result == Ok::<_, RuntimeHostError>(EvaluationStart::Deferred(directive))
                    } else {
                        match old(self).active_catalog() {
                            None => result == Err::<EvaluationStart, _>(
                                policy_request(
                                    "policy_catalog_unavailable",
                                    "evaluate_policy_cycle",
                                ),
                            ),
                            Some(active) => {
                                let work = total_work(active.compiled.counts, *inputs);
                                if work > u64::MAX {
                                    result == Err::<EvaluationStart, _>(measurement_overflow())
                                } else {
                                    &&& result matches Ok(EvaluationStart::Run {
                                        directive: run,
                                        cost,
                                    })
                                    &&& run == directive
                                    &&& cost.work_units == work
                                    &&& cost.catalog_tasks == active.compiled.counts.tasks
                                    &&& cost.fact_records == inputs.facts
                                    &&& cost.outcome_records == inputs.outcomes
                                    &&& cost.task_state_records == inputs.tasks
                                    &&& cost.instance_records == inputs.instances
                                    &&& cost.resource_records == inputs.pools + inputs.hosts
                                    &&& cost.task_instance_pairs == active.compiled.counts.tasks
                                        * inputs.instances
                                    &&& cost.catalog_records
                                        == all_catalog_records(
                                        active.compiled.counts,
                                    )
                                }
                            },
                        }
                    },
                }
            }),
    {
        let directive = self.cadence.observe(trigger, now_unix_ms)?;
        if directive.kind == PolicyRecomputeKind::Deferred {
            return Ok(EvaluationStart::Deferred(directive));
        }
        let active = match self.active_ref() {
            Some(active) => active,
            None => {
                return Err(request("policy_catalog_unavailable", "evaluate_policy_cycle"));
            },
        };
        let cost = policy_evaluation_cost(&active.compiled.counts, inputs)?;
        proof {
            let counts = active.compiled.counts;
            assert(counts.tasks * inputs.instances >= 0) by (nonlinear_arith);
        }
        Ok(EvaluationStart::Run { directive, cost })
    }

    /// The cycle of an evaluation that was put off.
    pub fn deferred_cycle(directive: PolicyRecomputeDirective) -> (cycle: PolicyCycle)
        ensures
            cycle.directive == directive,
            cycle.evaluation is None,
            cycle.pending_dispatch_intents@.len() == 0,
            cycle.detection_planning_signals@.len() == 0,
            cycle.measurement is None,
    {
        PolicyCycle {
            directive,
            evaluation: None,
            pending_dispatch_intents: Vec::new(),
            detection_planning_signals: Vec::new(),
            measurement: None,
        }
    }

    fn pending_intents(&self, intents: &Vec<DispatchIntent>) -> (pending: Vec<DispatchIntent>)
        requires
            self.wf(),
        ensures
            intent_views(pending@) == unseen_intents(
                intent_views(intents@),
                self.dispatches.seen@,
            ),
    {
        let ghost all = intent_views(intents@);
        let ghost seen = self.dispatches.seen@;
        let ghost unseen = |intent: IntentView| !seen.contains_key(intent.decision_id);
        let mut pending: Vec<DispatchIntent> = Vec::new();
        let mut index: usize = 0;
        proof {
            reveal(Seq::filter);
            assert(all.take(0) =~= Seq::empty());
            assert(intent_views(pending@) =~= Seq::empty());
        }
        while index < intents.len()
            invariant
                index <= intents.len(),
                self.wf(),
                all == intent_views(intents@),
                seen == self.dispatches.seen@,
                unseen == (|intent: IntentView| !seen.contains_key(intent.decision_id)),
                intent_views(pending@) == all.take(index as int).filter(unseen),
            decreases intents.len() - index,
        {
            proof {
                reveal(Seq::filter);
                assert(all.take(index + 1).drop_last() =~= all.take(index as int));
                assert(all.take(index + 1).last() == intents@[index as int]@);
            }
            if !self.dispatches.seen.contains(&intents[index].decision_id) {
                let ghost before = pending@;
                let copy = intents[index].copy();
                pending.push(copy);
                assert(intent_views(pending@) =~= intent_views(before).push(copy@));
            }
            index += 1;
        }
        assert(all.take(all.len() as int) =~= all);
        pending
    }

    /// The cycle that an evaluation gives: its intents are bound to approved
    /// content, those that were dispatched before are left out, and detection
    /// is planned for the instances that are left idle.
    pub fn finish_evaluation(
        &self,
        directive: PolicyRecomputeDirective,
        cost: PolicyEvaluationCost,
        evaluation: Option<PolicyEvaluation>,
        procedure_manifest: &ProcedureManifest,
        facts: &EvaluationFacts,
        now_unix_ms: u64,
        elapsed_micros: u128,
        sampled_at_monotonic_ms: u64,
    ) -> (result: RuntimeHostResult<PolicyCycle>)
        requires
            self.wf(),
            procedure_manifest.wf(),
        ensures
            match self.active_catalog() {
                None => result matches Err(error) && error == policy_request(
                    "policy_catalog_unavailable",
                    "evaluate_policy_cycle",
                ),
                Some(active) => match evaluation {
                    None => result matches Err(error) && error == policy_request(
                        "policy_evaluation_rejected",
                        "evaluate_policy_cycle",
                    ),
                    Some(evaluation) => match procedure_manifest.bound_evaluation(
                        intent_views(evaluation.dispatch_intents@),
                        chain_views(evaluation.reason_chains@),
                    ) {
                        Err(unbound) => result matches Err(error) && error == unbound,
                        Ok((intents, chains)) => if elapsed_micros > u64::MAX {
                            result matches Err(error) && error == measurement_overflow()
                        } else {
                            finished_as(
                                *self,
                                active,
                                evaluation,
                                intents,
                                chains,
                                *facts,
                                now_unix_ms,
                                result,
                            ) && (result matches Ok(cycle) ==> cycle.directive == directive
                                && cycle.measurement == Some(
                                PolicyEvaluationMeasurement {
                                    sampled_at_monotonic_ms,
                                    elapsed_micros: elapsed_micros as u64,
                                    requested_recompute: directive.kind,
                                    execution: PolicyEvaluationExecution::FullCatalogScan,
                                    cost,
                                },
                            ))
                        },
                    },
                },
            },
    {
        let active = match self.active_ref() {
            Some(active) => active,
            None => {
                return Err(request("policy_catalog_unavailable", "evaluate_policy_cycle"));
            },
        };
        let mut evaluation = match evaluation {
            Some(evaluation) => evaluation,
            None => {
                return Err(request("policy_evaluation_rejected", "evaluate_policy_cycle"));
            },
        };
        procedure_manifest.bind_evaluation(&mut evaluation)?;
        if elapsed_micros > u64::MAX as u128 {
            return Err(
                fatal("policy_evaluation_measurement_overflow", "measure_policy_evaluation"),
            );
        }
        let pending_dispatch_intents = self.pending_intents(&evaluation.dispatch_intents);
        let detection_planning_signals = self.planner.preview_detection_planning_signals(
            &active.compiled,
            facts,
            &evaluation,
            &pending_dispatch_intents,
            now_unix_ms,
        )?;
        Ok(
            PolicyCycle {
                directive,
                evaluation: Some(evaluation),
                pending_dispatch_intents,
                detection_planning_signals,
                measurement: Some(
                    PolicyEvaluationMeasurement {
                        sampled_at_monotonic_ms,
                        elapsed_micros: elapsed_micros as u64,
                        requested_recompute: directive.kind,
                        execution: PolicyEvaluationExecution::FullCatalogScan,
                        cost,
                    },
                ),
            },
        )
    }

    /// The generation under which an intent may be dispatched.
    pub fn validate_dispatch(
        &self,
        intent: &DispatchIntent,
        reason_chain: &DecisionReasonChain,
        context: &PolicyAdmissionContext,
        owner_epoch: OwnerEpoch,
        ledger_high_watermark: u64,
    ) -> (result: RuntimeHostResult<CatalogGeneration>)
        requires
            self.wf(),
        ensures
            match self.active_catalog() {
                None => result matches Err(error) && error == dispatch_refusal(
                    "policy_catalog_unavailable",
                ),
                Some(active) => match dispatch_error(
                    active,
                    intent@,
                    *reason_chain,
                    *context,
                    owner_epoch,
                    ledger_high_watermark,
                ) {
                    Some(refusal) => result matches Err(error) && error == refusal,
                    None => result matches Ok(generation) && generation@ == active.generation@,
                },
            },
    {
        let active = match self.active_ref() {
            Some(active) => active,
            None => {
                return Err(request("policy_catalog_unavailable", "validate_policy_dispatch"));
            },
        };
        check_dispatch(
            active,
            intent,
            reason_chain,
            context,
            owner_epoch,
            ledger_high_watermark,
        )?;
        Ok(active.generation.copy())
    }

    pub fn preview_admission(&self, intent: &DispatchIntent, now_unix_ms: u64) -> (result:
        RuntimeHostResult<PolicyAdmissionRecord>)
        requires
            self.wf(),
        ensures
            match self.active_catalog() {
                None => result matches Err(error) && error == policy_request(
                    "policy_catalog_unavailable",
                    "reserve_policy_budget",
                ),
                Some(active) => admission_is(
                    result,
                    self.dispatches@.control.admission(
                        active.compiled,
                        intent@,
                        now_unix_ms,
                        drawn_seed(active.compiled, intent@, now_unix_ms),
                    ),
                ),
            },
    {
        match self.active_ref() {
            Some(active) => self.dispatches.control.preview_admission(
                &active.compiled,
                intent,
                now_unix_ms,
            ),
            None => Err(request("policy_catalog_unavailable", "reserve_policy_budget")),
        }
    }
}

/// The result of an evaluation whose intents and chains were bound.
pub open spec fn finished_as(
    host: PolicyHost,
    active: LoadedCatalog,
    evaluation: PolicyEvaluation,
    intents: Seq<IntentView>,
    chains: Seq<crate::procedure_manifest::ChainView>,
    facts: EvaluationFacts,
    now_unix_ms: u64,
    result: RuntimeHostResult<PolicyCycle>,
) -> bool {
    let pending = unseen_intents(intents, host.dispatches.seen@);
    let ground = PlanningGround {
        catalog: active.compiled,
        projections: host.planner.projections@,
        fact_snapshot_id: facts.fact_snapshot_id@,
        instances: facts.instances@,
        occupied: instances_of(pending),
        now_unix_ms,
    };
    let planned = (PlannedSignals {
        quota: host.planner.quota@,
        emitted: Set::empty(),
        signals: Seq::empty(),
    }).with_decisions(ground, evaluation.decisions@);
    if now_unix_ms == 0 {
        result matches Err(error) && error == policy_fatal(
            "policy_detection_time_invalid",
            "plan_policy_detection",
        )
    } else if planned is Err {
        result matches Err(error) && error == planned->Err_0
    } else {
        &&& result matches Ok(cycle)
        &&& cycle.evaluation is Some
        &&& (cycle.evaluation->0).decisions == evaluation.decisions
        &&& (cycle.evaluation->0).remainder == evaluation.remainder
        &&& intent_views((cycle.evaluation->0).dispatch_intents@) == intents
        &&& chain_views((cycle.evaluation->0).reason_chains@) == chains
        &&& intent_views(cycle.pending_dispatch_intents@) == pending
        &&& signal_views(cycle.detection_planning_signals@) == planned->Ok_0.signals
    }
}

/// A dispatch is let through exactly where it was made for the active catalog
/// and a task of it as the task is declared, on the facts that are current, for
/// its own reasons, with every approval given, under this owner, in time, and
/// with budgets that leave room for one run.
pub proof fn law_dispatch_is_let_through_when_all_holds(
    active: LoadedCatalog,
    intent: IntentView,
    reason_chain: DecisionReasonChain,
    context: PolicyAdmissionContext,
    owner_epoch: OwnerEpoch,
    ledger_high_watermark: u64,
    task: int,
)
    requires
        active.compiled.task_position(intent.task_id) == Some(task),
    ensures
        ({
            let declared = active.compiled.tasks@[task];
            let conditions = intent.prerequisites;
            dispatch_error(
                active,
                intent,
                reason_chain,
                context,
                owner_epoch,
                ledger_high_watermark,
            ) is None <==> {
                &&& intent.catalog_hash == active.generation.catalog_hash@
                    && intent.catalog_version == active.generation.catalog_version
                &&& intent.operation_id == declared.operation_id@ && intent.procedure_ref
                    == declared.procedure_ref@ && intent.expected_duration_ms
                    == declared.expected_duration_ms && intent.load_profile
                    == declared.load_profile && intent.yield_points == texts(
                    declared.yield_points@,
                )
                &&& conditions.daily_limit == declared.loop_budget.daily_limit
                    && conditions.window_iteration_limit
                    == declared.loop_budget.window_iteration_limit && conditions.max_runtime_ms
                    == declared.loop_budget.max_runtime_ms
                &&& conditions.urgency_milli <= 1_000
                &&& active.compiled.profile_position(conditions.activity_profile_id) is Some
                &&& intent.approval_refs == texts(active.compiled.approval_refs@)
                &&& declared.scope matches ScopeSelector::Instance { instance_id } ==> instance_id@
                    == intent.instance_id
                &&& context.fact_ledger_position == intent.input_ledger_position
                    && intent.input_ledger_position <= ledger_high_watermark
                    && context.fact_snapshot_id@ == intent.fact_snapshot_id
                &&& intent.reason_chain_id == reason_chain.id@ && intent.decision_id
                    == reason_chain.decision_id@ && reason_chain.reasons@.len() > 0
                &&& forall|i: int|
                    0 <= i < intent.approval_refs.len() ==> texts(
                        context.approval_fact_ids@,
                    ).contains(#[trigger] intent.approval_refs[i])
                &&& owner_epoch == context.fencing_owner_epoch && conditions.fencing_required
                &&& conditions.evaluated_at_unix_ms <= context.now_unix_ms
                &&& conditions.facts_fresh_until_unix_ms matches Some(until) ==> context.now_unix_ms
                    <= until
                &&& conditions.daily_limit > 0 && conditions.window_iteration_limit > 0
                    && conditions.max_runtime_ms > 0 && intent.expected_duration_ms
                    <= conditions.max_runtime_ms
            }
        }),
{
}

/// Whatever refuses a dispatch refuses the request only, and never stops the
/// host; one of another catalog is refused as such first.
pub proof fn law_refused_dispatch_stops_nothing(
    active: LoadedCatalog,
    intent: IntentView,
    reason_chain: DecisionReasonChain,
    context: PolicyAdmissionContext,
    owner_epoch: OwnerEpoch,
    ledger_high_watermark: u64,
)
    ensures
        dispatch_error(
            active,
            intent,
            reason_chain,
            context,
            owner_epoch,
            ledger_high_watermark,
        ) matches Some(error) ==> !error.fatal,
        intent.catalog_hash != active.generation.catalog_hash@ ==> (dispatch_error(
            active,
            intent,
            reason_chain,
            context,
            owner_epoch,
            ledger_high_watermark,
        ) matches Some(error) && error.code == "policy_catalog_mismatch"),
{
}

/// An intent is pending exactly where its decision was not seen before; the
/// pending ones keep their order.
pub proof fn law_only_new_decisions_are_pending(
    intents: Seq<IntentView>,
    seen: Map<Seq<char>, SeenDispatch>,
    intent: IntentView,
)
    ensures
        unseen_intents(intents.push(intent), seen) == if seen.contains_key(intent.decision_id) {
            unseen_intents(intents, seen)
        } else {
            unseen_intents(intents, seen).push(intent)
        },
        unseen_intents(Seq::empty(), seen).len() == 0,
{
    reveal(Seq::filter);
    assert(intents.push(intent).drop_last() =~= intents);
}

} // verus!
