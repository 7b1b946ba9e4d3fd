//! Dispatches as the ledger tells them: from the intent over the admission to
//! the completion.

use vstd::prelude::*;

use crate::digest::{digest_text_valid, is_digest_text};
use crate::error::{RuntimeHostError, RuntimeHostResult};
use crate::policy::catalog::{
    fatal, policy_fatal, DispatchIntent, DispatchPrerequisites, IntentView, PolicyCatalog,
    PrerequisitesView, TaskSpec,
};
use crate::policy::control::{
    AdmissionView, ExecutionView, InputView, OutcomeView, PolicyAdmissionRecord,
    PolicyExecutionEventData, PolicyExecutionInput, PolicyExecutionOutcome,
};
use crate::policy::evaluation::{DecisionReasonChain, PolicyReasonRecord};
use crate::text::{copy_texts, same_text, same_texts, texts};

verus! {

/// What the ledger records of a dispatch.
#[derive(Debug, Clone, PartialEq, Eq)]
pub struct PolicyDispatchEventData {
    pub decision_id: String,
    pub task_id: String,
    pub instance_id: String,
    pub operation_id: String,
    pub package_digest: String,
    pub procedure_binding_digest: String,
    pub reason_chain_id: String,
    pub reasons: Vec<PolicyReasonRecord>,
    pub catalog_hash: String,
    pub catalog_version: u64,
    pub input_ledger_position: u64,
    pub fact_snapshot_id: String,
    pub approval_fact_ids: Vec<String>,
    pub urgency_milli: u16,
}

/// The value of a dispatch.
pub struct DispatchView {
    pub decision_id: Seq<char>,
    pub task_id: Seq<char>,
    pub instance_id: Seq<char>,
    pub operation_id: Seq<char>,
    pub package_digest: Seq<char>,
    pub procedure_binding_digest: Seq<char>,
    pub reason_chain_id: Seq<char>,
    /// Code and detail of each reason.
    pub reasons: Seq<(Seq<char>, Seq<char>)>,
    pub catalog_hash: Seq<char>,
    pub catalog_version: u64,
    pub input_ledger_position: u64,
    pub fact_snapshot_id: Seq<char>,
    pub approval_fact_ids: Seq<Seq<char>>,
    pub urgency_milli: u16,
}

pub open spec fn reason_texts(reasons: Seq<PolicyReasonRecord>) -> Seq<(Seq<char>, Seq<char>)> {
    reasons.map_values(|reason: PolicyReasonRecord| (reason.code@, reason.detail@))
}

impl View for PolicyDispatchEventData {
    type V = DispatchView;

    open spec fn view(&self) -> DispatchView {
        DispatchView {
            decision_id: self.decision_id@,
            task_id: self.task_id@,
            instance_id: self.instance_id@,
            operation_id: self.operation_id@,
            package_digest: self.package_digest@,
            procedure_binding_digest: self.procedure_binding_digest@,
            reason_chain_id: self.reason_chain_id@,
            reasons: reason_texts(self.reasons@),
            catalog_hash: self.catalog_hash@,
            catalog_version: self.catalog_version,
            input_ledger_position: self.input_ledger_position,
            fact_snapshot_id: self.fact_snapshot_id@,
            approval_fact_ids: texts(self.approval_fact_ids@),
            urgency_milli: self.urgency_milli,
        }
    }
}

pub fn copy_reasons(reasons: &Vec<PolicyReasonRecord>) -> (copy: Vec<PolicyReasonRecord>)
    ensures
        reason_texts(copy@) == reason_texts(reasons@),
{
    let mut copy: Vec<PolicyReasonRecord> = Vec::new();
    let mut index: usize = 0;
    while index < reasons.len()
        invariant
            index <= reasons.len(),
            copy@.len() == index,
            forall|i: int|
                0 <= i < index ==> (#[trigger] copy@[i]).code@ == reasons@[i].code@
                    && copy@[i].detail@ == reasons@[i].detail@,
        decreases reasons.len() - index,
    {
        copy.push(
            PolicyReasonRecord {
                code: reasons[index].code.clone(),
                detail: reasons[index].detail.clone(),
            },
        );
        index += 1;
    }
    assert(reason_texts(copy@) =~= reason_texts(reasons@));
    copy
}

fn same_reasons(left: &Vec<PolicyReasonRecord>, right: &Vec<PolicyReasonRecord>) -> (same: bool)
    ensures
        same == (reason_texts(left@) == reason_texts(right@)),
{
    if left.len() != right.len() {
        assert(reason_texts(left@).len() != reason_texts(right@).len());
        return false;
    }
    let mut index: usize = 0;
    while index < left.len()
        invariant
            index <= left.len() == right.len(),
            forall|i: int|
                0 <= i < index ==> reason_texts(left@)[i] == #[trigger] reason_texts(right@)[i],
        decreases left.len() - index,
    {
        assert(reason_texts(left@)[index as int] == (
            left@[index as int].code@,
            left@[index as int].detail@,
        ));
        assert(reason_texts(right@)[index as int] == (
            right@[index as int].code@,
            right@[index as int].detail@,
        ));
        if !same_text(left[index].code.as_str(), right[index].code.as_str()) || !same_text(
            left[index].detail.as_str(),
            right[index].detail.as_str(),
        ) {
            return false;
        }
        index += 1;
    }
    assert(reason_texts(left@) =~= reason_texts(right@));
    true
}

impl PolicyDispatchEventData {
    /// The same dispatch once more.
    pub fn copy(&self) -> (data: Self)
        ensures
            data@ == self@,
    {
        PolicyDispatchEventData {
            decision_id: self.decision_id.clone(),
            task_id: self.task_id.clone(),
            instance_id: self.instance_id.clone(),
            operation_id: self.operation_id.clone(),
            package_digest: self.package_digest.clone(),
            procedure_binding_digest: self.procedure_binding_digest.clone(),
            reason_chain_id: self.reason_chain_id.clone(),
            reasons: copy_reasons(&self.reasons),
            catalog_hash: self.catalog_hash.clone(),
            catalog_version: self.catalog_version,
            input_ledger_position: self.input_ledger_position,
            fact_snapshot_id: self.fact_snapshot_id.clone(),
            approval_fact_ids: copy_texts(&self.approval_fact_ids),
            urgency_milli: self.urgency_milli,
        }
    }

    pub fn same(&self, other: &Self) -> (same: bool)
        ensures
            same == (self@ == other@),
    {
        same_text(self.decision_id.as_str(), other.decision_id.as_str()) && same_text(
            self.task_id.as_str(),
            other.task_id.as_str(),
        ) && same_text(self.instance_id.as_str(), other.instance_id.as_str()) && same_text(
            self.operation_id.as_str(),
            other.operation_id.as_str(),
        ) && same_text(self.package_digest.as_str(), other.package_digest.as_str()) && same_text(
            self.procedure_binding_digest.as_str(),
            other.procedure_binding_digest.as_str(),
        ) && same_text(self.reason_chain_id.as_str(), other.reason_chain_id.as_str())
            && same_reasons(&self.reasons, &other.reasons) && same_text(
            self.catalog_hash.as_str(),
            other.catalog_hash.as_str(),
        ) && self.catalog_version == other.catalog_version && self.input_ledger_position
            == other.input_ledger_position && same_text(
            self.fact_snapshot_id.as_str(),
            other.fact_snapshot_id.as_str(),
        ) && same_texts(&self.approval_fact_ids, &other.approval_fact_ids) && self.urgency_milli
            == other.urgency_milli
    }
}

/// The two digests of a recorded dispatch are digests.
pub open spec fn digests_valid(data: DispatchView) -> bool {
    digest_text_valid(data.package_digest) && digest_text_valid(data.procedure_binding_digest)
}

pub open spec fn event_refused() -> RuntimeHostError {
    policy_fatal("procedure_binding_event_invalid", "recover_policy_dispatches")
}

/// A recorded dispatch whose digests are none is refused.
pub fn check_event_data(data: &PolicyDispatchEventData) -> (result: RuntimeHostResult<()>)
    ensures
        digests_valid(data@) ==> result == Ok::<(), RuntimeHostError>(()),
        !digests_valid(data@) ==> result == Err::<(), _>(event_refused()),
{
    if !is_digest_text(data.package_digest.as_str()) || !is_digest_text(
        data.procedure_binding_digest.as_str(),
    ) {
        return Err(fatal("procedure_binding_event_invalid", "recover_policy_dispatches"));
    }
    Ok(())
}

/// The dispatch that an intent and its reasons make.
pub open spec fn dispatch_of(intent: IntentView, reason_chain: DecisionReasonChain) -> Result<
    DispatchView,
    RuntimeHostError,
> {
    if intent.package_digest is None {
        Err(policy_fatal("procedure_package_digest_missing", "build_policy_dispatch_event"))
    } else if intent.procedure_binding_digest is None {
        Err(policy_fatal("procedure_binding_digest_missing", "build_policy_dispatch_event"))
    } else {
        Ok(
            DispatchView {
                decision_id: intent.decision_id,
                task_id: intent.task_id,
                instance_id: intent.instance_id,
                operation_id: intent.operation_id,
                package_digest: intent.package_digest->0,
                procedure_binding_digest: intent.procedure_binding_digest->0,
                reason_chain_id: reason_chain.id@,
                reasons: reason_texts(reason_chain.reasons@),
                catalog_hash: intent.catalog_hash,
                catalog_version: intent.catalog_version,
                input_ledger_position: intent.input_ledger_position,
                fact_snapshot_id: intent.fact_snapshot_id,
                approval_fact_ids: intent.approval_refs,
                urgency_milli: intent.prerequisites.urgency_milli,
            },
        )
    }
}

pub fn dispatch_event_data(intent: &DispatchIntent, reason_chain: &DecisionReasonChain) -> (result:
    RuntimeHostResult<PolicyDispatchEventData>)
    ensures
        match dispatch_of(intent@, *reason_chain) {
            Ok(value) => result matches Ok(data) && data@ == value,
            Err(error) => result matches Err(actual) && actual == error,
        },
{
    let package_digest = match &intent.package_digest {
        Some(digest) => digest.clone(),
        None => {
            return Err(fatal("procedure_package_digest_missing", "build_policy_dispatch_event"));
        },
    };
    let procedure_binding_digest = match &intent.procedure_binding_digest {
        Some(digest) => digest.clone(),
        None => {
            return Err(fatal("procedure_binding_digest_missing", "build_policy_dispatch_event"));
        },
    };
    Ok(
        PolicyDispatchEventData {
            decision_id: intent.decision_id.clone(),
            task_id: intent.task_id.clone(),
            instance_id: intent.instance_id.clone(),
            operation_id: intent.operation_id.clone(),
            package_digest,
            procedure_binding_digest,
            reason_chain_id: reason_chain.id.clone(),
            reasons: copy_reasons(&reason_chain.reasons),
            catalog_hash: intent.catalog_hash.clone(),
            catalog_version: intent.catalog_version,
            input_ledger_position: intent.input_ledger_position,
            fact_snapshot_id: intent.fact_snapshot_id.clone(),
            approval_fact_ids: copy_texts(&intent.approval_refs),
            urgency_milli: intent.prerequisites.urgency_milli,
        },
    )
}

/// The intent behind a dispatch, made again from its task and its admission.
pub open spec fn intent_for(data: DispatchView, task: TaskSpec, admission: AdmissionView) ->
    IntentView {
    IntentView {
        decision_id: data.decision_id,
        task_id: data.task_id,
        instance_id: data.instance_id,
        operation_id: data.operation_id,
        procedure_ref: task.procedure_ref@,
        package_digest: Some(data.package_digest),
        procedure_binding_digest: Some(data.procedure_binding_digest),
        catalog_hash: data.catalog_hash,
        catalog_version: data.catalog_version,
        input_ledger_position: data.input_ledger_position,
        fact_snapshot_id: data.fact_snapshot_id,
        approval_refs: data.approval_fact_ids,
        reason_chain_id: data.reason_chain_id,
        expected_duration_ms: task.expected_duration_ms,
        yield_points: texts(task.yield_points@),
        load_profile: task.load_profile,
        prerequisites: PrerequisitesView {
            fencing_required: true,
            evaluated_at_unix_ms: admission.activity.admitted_at_unix_ms,
            facts_fresh_until_unix_ms: None,
            activity_profile_id: admission.activity.profile_id,
            daily_limit: task.loop_budget.daily_limit,
            window_iteration_limit: task.loop_budget.window_iteration_limit,
            max_runtime_ms: task.loop_budget.max_runtime_ms,
            urgency_milli: data.urgency_milli,
        },
    }
}

pub open spec fn remade_intent(
    data: DispatchView,
    catalog: PolicyCatalog,
    admission: AdmissionView,
) -> Result<IntentView, RuntimeHostError> {
    match catalog.task_position(data.task_id) {
        None => Err(policy_fatal("policy_task_missing", "recover_policy_control")),
        Some(task) => Ok(intent_for(data, catalog.tasks@[task], admission)),
    }
}

pub fn control_intent(
    data: &PolicyDispatchEventData,
    catalog: &PolicyCatalog,
    admission: &PolicyAdmissionRecord,
) -> (result: RuntimeHostResult<DispatchIntent>)
    ensures
        match remade_intent(data@, *catalog, admission@) {
            Ok(value) => result matches Ok(intent) && intent@ == value,
            Err(error) => result matches Err(actual) && actual == error,
        },
{
    let task = match catalog.find_task(data.task_id.as_str()) {
        Some(index) => &catalog.tasks[index],
        None => {
            return Err(fatal("policy_task_missing", "recover_policy_control"));
        },
    };
    Ok(
        DispatchIntent {
            decision_id: data.decision_id.clone(),
            task_id: data.task_id.clone(),
            instance_id: data.instance_id.clone(),
            operation_id: data.operation_id.clone(),
            procedure_ref: task.procedure_ref.clone(),
            package_digest: Some(data.package_digest.clone()),
            procedure_binding_digest: Some(data.procedure_binding_digest.clone()),
            catalog_hash: data.catalog_hash.clone(),
            catalog_version: data.catalog_version,
            input_ledger_position: data.input_ledger_position,
            fact_snapshot_id: data.fact_snapshot_id.clone(),
            approval_refs: copy_texts(&data.approval_fact_ids),
            reason_chain_id: data.reason_chain_id.clone(),
            expected_duration_ms: task.expected_duration_ms,
            yield_points: copy_texts(&task.yield_points),
            load_profile: task.load_profile,
            prerequisites: DispatchPrerequisites {
                fencing_required: true,
                evaluated_at_unix_ms: admission.activity.admitted_at_unix_ms,
                facts_fresh_until_unix_ms: None,
                activity_profile_id: admission.activity.profile_id.clone(),
                daily_limit: task.loop_budget.daily_limit,
                window_iteration_limit: task.loop_budget.window_iteration_limit,
                max_runtime_ms: task.loop_budget.max_runtime_ms,
                urgency_milli: data.urgency_milli,
            },
        },
    )
}

/// The outcome was recorded for this report.
pub open spec fn outcome_matches(outcome: OutcomeView, input: InputView) -> bool {
    match (outcome, input) {
        (OutcomeView::Succeeded { .. }, InputView::Succeeded) => true,
        (OutcomeView::Failed { failure }, InputView::Succeeded) => failure.reported_success,
        (OutcomeView::Failed { failure }, InputView::Failed { error_code, class }) =>
            !failure.reported_success && failure.error_code == error_code
                && failure.original_class == class,
        _ => false,
    }
}

pub fn execution_input_matches(outcome: &PolicyExecutionOutcome, input: &PolicyExecutionInput) -> (matches:
    bool)
    ensures
        matches == outcome_matches(outcome@, input@),
{
    match (outcome, input) {
        (PolicyExecutionOutcome::Succeeded { .. }, PolicyExecutionInput::Succeeded) => true,
        (PolicyExecutionOutcome::Failed { failure }, PolicyExecutionInput::Succeeded) =>
            failure.reported_success,
        (
            PolicyExecutionOutcome::Failed { failure },
            PolicyExecutionInput::Failed { error_code, class },
        ) => !failure.reported_success && same_text(
            failure.error_code.as_str(),
            error_code.as_str(),
        ) && failure.original_class == *class,
        _ => false,
    }
}

#[derive(Debug, Clone, Copy, PartialEq, Eq, Structural)]
pub enum DispatchLifecycle {
    Intent,
    Admitted,
    Rejected,
    Completed,
}

#[derive(Debug, Clone, Copy, PartialEq, Eq, Structural)]
pub enum PolicyDispatchProjectionState {
    Intent,
    Admitted,
    Rejected,
    Completed,
}

/// What is known of a dispatch.
#[derive(Debug, Clone)]
pub struct SeenDispatch {
    pub data: PolicyDispatchEventData,
    pub admission: Option<PolicyAdmissionRecord>,
    pub execution: Option<PolicyExecutionEventData>,
    pub intent_sequence: u64,
    pub admitted_sequence: Option<u64>,
    pub rejected_sequence: Option<u64>,
    pub completed_sequence: Option<u64>,
    pub lifecycle: DispatchLifecycle,
}

/// The value of a seen dispatch.
pub struct SeenView {
    pub data: DispatchView,
    pub admission: Option<AdmissionView>,
    pub execution: Option<ExecutionView>,
    pub intent_sequence: u64,
    pub admitted_sequence: Option<u64>,
    pub rejected_sequence: Option<u64>,
    pub completed_sequence: Option<u64>,
    pub lifecycle: DispatchLifecycle,
}

pub open spec fn optional_admission(admission: Option<PolicyAdmissionRecord>) -> Option<
    AdmissionView,
> {
    match admission {
        Some(admission) => Some(admission@),
        None => None,
    }
}

pub open spec fn optional_execution(execution: Option<PolicyExecutionEventData>) -> Option<
    ExecutionView,
> {
    match execution {
        Some(execution) => Some(execution@),
        None => None,
    }
}

impl View for SeenDispatch {
    type V = SeenView;

    open spec fn view(&self) -> SeenView {
        SeenView {
            data: self.data@,
            admission: optional_admission(self.admission),
            execution: optional_execution(self.execution),
            intent_sequence: self.intent_sequence,
            admitted_sequence: self.admitted_sequence,
            rejected_sequence: self.rejected_sequence,
            completed_sequence: self.completed_sequence,
            lifecycle: self.lifecycle,
        }
    }
}

/// Something happened up to a position of the ledger.
pub open spec fn happened_by(sequence: Option<u64>, ledger_position: u64) -> bool {
    sequence is Some && sequence->0 <= ledger_position
}

fn had_happened(sequence: Option<u64>, ledger_position: u64) -> (happened: bool)
    ensures
        happened == happened_by(sequence, ledger_position),
{
    match sequence {
        Some(sequence) => sequence <= ledger_position,
        None => false,
    }
}

impl SeenView {
    /// How far a dispatch had come at a position of the ledger.
    pub open spec fn state_at(self, ledger_position: u64) -> PolicyDispatchProjectionState {
        if happened_by(self.completed_sequence, ledger_position) {
            PolicyDispatchProjectionState::Completed
        } else if happened_by(self.rejected_sequence, ledger_position) {
            PolicyDispatchProjectionState::Rejected
        } else if happened_by(self.admitted_sequence, ledger_position) {
            PolicyDispatchProjectionState::Admitted
        } else {
            PolicyDispatchProjectionState::Intent
        }
    }

    /// The dispatch after a step of its life, if the step is one that may
    /// follow.
    pub open spec fn transitioned(
        self,
        data: DispatchView,
        expected: DispatchLifecycle,
        next: DispatchLifecycle,
        sequence: u64,
    ) -> Result<SeenView, RuntimeHostError> {
        if !digests_valid(data) {
            Err(event_refused())
        } else if self.data != data || self.lifecycle != expected || sequence
            <= self.intent_sequence || next == DispatchLifecycle::Intent {
            Err(policy_fatal("policy_dispatch_lifecycle_invalid", "recover_policy_dispatches"))
        } else {
            Ok(
                SeenView {
                    lifecycle: next,
                    admitted_sequence: if next == DispatchLifecycle::Admitted {
                        Some(sequence)
                    } else {
                        self.admitted_sequence
                    },
                    rejected_sequence: if next == DispatchLifecycle::Rejected {
                        Some(sequence)
                    } else {
                        self.rejected_sequence
                    },
                    completed_sequence: if next == DispatchLifecycle::Completed {
                        Some(sequence)
                    } else {
                        self.completed_sequence
                    },
                    ..self
                },
            )
        }
    }
}

impl SeenDispatch {
    pub fn projected_state_at(&self, ledger_position: u64) -> (state: PolicyDispatchProjectionState)
        ensures
            state == self@.state_at(ledger_position),
    {
        if had_happened(self.completed_sequence, ledger_position) {
            PolicyDispatchProjectionState::Completed
        } else if had_happened(self.rejected_sequence, ledger_position) {
            PolicyDispatchProjectionState::Rejected
        } else if had_happened(self.admitted_sequence, ledger_position) {
            PolicyDispatchProjectionState::Admitted
        } else {
            PolicyDispatchProjectionState::Intent
        }
    }

    pub fn transition_dispatch(
        &mut self,
        data: &PolicyDispatchEventData,
        expected: DispatchLifecycle,
        next: DispatchLifecycle,
        sequence: u64,
    ) -> (result: RuntimeHostResult<()>)
        ensures
            match old(self)@.transitioned(data@, expected, next, sequence) {
                Ok(after) => result == Ok::<(), RuntimeHostError>(()) && final(self)@ == after,
                Err(error) => result == Err::<(), _>(error) && *final(self) == *old(self),
            },
    {
        check_event_data(data)?;
        if !self.data.same(data) || self.lifecycle != expected || sequence
            <= self.intent_sequence {
            return Err(fatal("policy_dispatch_lifecycle_invalid", "recover_policy_dispatches"));
        }
        match next {
            DispatchLifecycle::Admitted => {
                self.admitted_sequence = Some(sequence);
            },
            DispatchLifecycle::Rejected => {
                self.rejected_sequence = Some(sequence);
            },
            DispatchLifecycle::Completed => {
                self.completed_sequence = Some(sequence);
            },
            DispatchLifecycle::Intent => {
                return Err(
                    fatal("policy_dispatch_lifecycle_invalid", "recover_policy_dispatches"),
                );
            },
        }
        self.lifecycle = next;
        Ok(())
    }
}

/// What a dispatch had become at a position stays true at every later one: it
/// only moves on.
pub proof fn law_projected_state_moves_on(seen: SeenView, earlier: u64, later: u64)
    requires
        earlier <= later,
        seen.rejected_sequence is None,
    ensures
        seen.state_at(earlier) == PolicyDispatchProjectionState::Completed ==> seen.state_at(later)
            == PolicyDispatchProjectionState::Completed,
        seen.state_at(earlier) == PolicyDispatchProjectionState::Admitted ==> (seen.state_at(later)
            == PolicyDispatchProjectionState::Admitted || seen.state_at(later)
            == PolicyDispatchProjectionState::Completed),
{
}

/// A recorded outcome matches the report that it was made from.
pub proof fn law_outcome_matches_its_report(outcome: OutcomeView)
    ensures
        outcome_matches(outcome, crate::policy::outcome::reported_input(outcome)),
{
}

/// A dispatch is recorded of an intent that is bound to its package and its
/// procedure, under the intent's own names; remade from the catalog it is of
/// the same decision, task, instance and catalog, takes as long as the task
/// declares, and keeps to the profile that admitted it.
pub proof fn law_dispatch_remembers_its_intent(
    intent: IntentView,
    reason_chain: DecisionReasonChain,
    task: TaskSpec,
    admission: AdmissionView,
)
    ensures
        dispatch_of(intent, reason_chain) is Ok <==> intent.package_digest is Some
            && intent.procedure_binding_digest is Some,
        dispatch_of(intent, reason_chain) matches Ok(data) ==> {
            let remade = intent_for(data, task, admission);
            &&& remade.decision_id == intent.decision_id && remade.task_id == intent.task_id
            &&& remade.instance_id == intent.instance_id && remade.operation_id
                == intent.operation_id
            &&& remade.catalog_hash == intent.catalog_hash && remade.catalog_version
                == intent.catalog_version
            &&& remade.package_digest == intent.package_digest && remade.procedure_binding_digest
                == intent.procedure_binding_digest
            &&& remade.input_ledger_position == intent.input_ledger_position
                && remade.fact_snapshot_id == intent.fact_snapshot_id && remade.approval_refs
                == intent.approval_refs
            &&& remade.prerequisites.urgency_milli == intent.prerequisites.urgency_milli
            &&& remade.prerequisites.activity_profile_id == admission.activity.profile_id
            &&& remade.expected_duration_ms == task.expected_duration_ms && remade.load_profile
                == task.load_profile && remade.procedure_ref == task.procedure_ref@
            &&& remade.prerequisites.fencing_required
            &&& data.reason_chain_id == reason_chain.id@ && data.reasons.len()
                == reason_chain.reasons@.len()
        },
{
}

/// A dispatch was completed, rejected or admitted at a position exactly where
/// that happened at or before it, in this order of weight; else it is still an
/// intent.
pub proof fn law_state_is_the_latest_that_happened(seen: SeenView, position: u64)
    ensures
        seen.state_at(position) == PolicyDispatchProjectionState::Completed <==> (
        seen.completed_sequence matches Some(at) && at <= position),
        seen.state_at(position) == PolicyDispatchProjectionState::Rejected <==> (
        seen.rejected_sequence matches Some(at) && at <= position) && !(seen.completed_sequence
            matches Some(at) && at <= position),
        seen.state_at(position) == PolicyDispatchProjectionState::Intent <==> {
            &&& seen.admitted_sequence matches Some(at) ==> at > position
            &&& seen.rejected_sequence matches Some(at) ==> at > position
            &&& seen.completed_sequence matches Some(at) ==> at > position
        },
{
}

/// A dispatch moves on exactly where the event is about it as it was recorded,
/// it stands where the move starts, and the event comes after the intent. The
/// move is dated at the event; what happened before stays dated as it was.
pub proof fn law_dispatch_moves_on_in_order(
    seen: SeenView,
    data: DispatchView,
    expected: DispatchLifecycle,
    next: DispatchLifecycle,
    sequence: u64,
)
    requires
        next != DispatchLifecycle::Intent,
        digests_valid(data),
    ensures
        seen.transitioned(data, expected, next, sequence) is Ok <==> seen.data == data
            && seen.lifecycle == expected && sequence > seen.intent_sequence,
        seen.transitioned(data, expected, next, sequence) matches Ok(after) ==> {
            &&& after.lifecycle == next
            &&& after.data == data && after.intent_sequence == seen.intent_sequence
            &&& after.admission == seen.admission && after.execution == seen.execution
            &&& next == DispatchLifecycle::Admitted ==> after.admitted_sequence == Some(sequence)
                && after.completed_sequence == seen.completed_sequence && after.rejected_sequence
                == seen.rejected_sequence
            &&& next == DispatchLifecycle::Rejected ==> after.rejected_sequence == Some(sequence)
                && after.admitted_sequence == seen.admitted_sequence
            &&& next == DispatchLifecycle::Completed ==> after.completed_sequence == Some(sequence)
                && after.admitted_sequence == seen.admitted_sequence
        },
{
}

/// A report matches a recorded outcome exactly where it is the report that the
/// outcome was made from: a success that stayed one or was overruled, or the
/// very failure.
pub proof fn law_only_its_own_report_matches(outcome: OutcomeView, input: InputView)
    ensures
        outcome_matches(outcome, input) <==> match input {
            InputView::Succeeded => match outcome {
                OutcomeView::Succeeded { .. } => true,
                OutcomeView::Failed { failure } => failure.reported_success,
            },
            InputView::Failed { error_code, class } => outcome matches OutcomeView::Failed {
                failure,
            } && !failure.reported_success && failure.error_code == error_code
                && failure.original_class == class,
        },
{
}

} // verus!
