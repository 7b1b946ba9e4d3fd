//! Rebuilding the dispatches and the budgets from the ledger.

use vstd::prelude::*;

use crate::digest::digest_text_valid;
use crate::error::{RuntimeHostError, RuntimeHostResult};
use crate::ordered_map::{lemma_entry, OrderedMap};
use crate::policy::catalog::{fatal, policy_fatal};
use crate::policy::control::{
    drawn_seed, same_admission, AdmissionView, ControlView, ExecutionView, PolicyAdmissionRecord,
    PolicyControlState, PolicyExecutionEventData,
};
use crate::policy::dispatch::{
    check_event_data, control_intent, digests_valid, event_refused, optional_admission,
    remade_intent, DispatchLifecycle, DispatchView, PolicyDispatchEventData, SeenDispatch,
    SeenView,
};
use crate::policy::generation::{CatalogGeneration, CatalogShelf, GenerationView};

verus! {

/// An event of the ledger about a dispatch.
#[derive(Debug, Clone)]
pub enum PolicyEventPayload {
    DispatchIntent { data: PolicyDispatchEventData },
    DispatchAdmitted { data: PolicyDispatchEventData, admission: Option<PolicyAdmissionRecord> },
    DispatchRejected { data: PolicyDispatchEventData },
    DispatchCompleted { data: PolicyDispatchEventData, admission: Option<PolicyAdmissionRecord> },
    ExecutionRecorded { data: PolicyExecutionEventData },
    PlanningSignalObserved,
    /// An event that is none of the policy's.
    Other,
}

#[derive(Debug, Clone)]
pub struct PolicyEvent {
    pub sequence: u64,
    pub payload: PolicyEventPayload,
}

/// The value of an event's payload.
pub enum PayloadView {
    DispatchIntent { data: DispatchView },
    DispatchAdmitted { data: DispatchView, admission: Option<AdmissionView> },
    DispatchRejected { data: DispatchView },
    DispatchCompleted { data: DispatchView, admission: Option<AdmissionView> },
    ExecutionRecorded { data: ExecutionView },
    PlanningSignalObserved,
    Other,
}

/// The value of an event.
pub struct EventView {
    pub sequence: u64,
    pub payload: PayloadView,
}

impl View for PolicyEvent {
    type V = EventView;

    open spec fn view(&self) -> EventView {
        EventView {
            sequence: self.sequence,
            payload: match self.payload {
                PolicyEventPayload::DispatchIntent { data } => PayloadView::DispatchIntent {
                    data: data@,
                },
                PolicyEventPayload::DispatchAdmitted { data, admission } =>
                    PayloadView::DispatchAdmitted {
                    data: data@,
                    admission: optional_admission(admission),
                },
                PolicyEventPayload::DispatchRejected { data } => PayloadView::DispatchRejected {
                    data: data@,
                },
                PolicyEventPayload::DispatchCompleted { data, admission } =>
                    PayloadView::DispatchCompleted {
                    data: data@,
                    admission: optional_admission(admission),
                },
                PolicyEventPayload::ExecutionRecorded { data } => PayloadView::ExecutionRecorded {
                    data: data@,
                },
                PolicyEventPayload::PlanningSignalObserved => PayloadView::PlanningSignalObserved,
                PolicyEventPayload::Other => PayloadView::Other,
            },
        }
    }
}

pub open spec fn event_views(events: Seq<PolicyEvent>) -> Seq<EventView> {
    events.map_values(|event: PolicyEvent| event@)
}

/// A row of events with one more put after all that are not later.
pub open spec fn placed(row: Seq<EventView>, event: EventView) -> Seq<EventView>
    decreases row.len(),
{
    if row.len() == 0 || row.last().sequence <= event.sequence {
        row.push(event)
    } else {
        placed(row.drop_last(), event).push(row.last())
    }
}

/// Events in the order of their sequences, those of one sequence in the order
/// in which they came.
pub open spec fn in_order(events: Seq<EventView>) -> Seq<EventView>
    decreases events.len(),
{
    if events.len() == 0 {
        events
    } else {
        placed(in_order(events.drop_last()), events.last())
    }
}

proof fn lemma_placed_at(row: Seq<EventView>, event: EventView, position: int)
    requires
        0 <= position <= row.len(),
        position > 0 ==> row[position - 1].sequence <= event.sequence,
        forall|i: int| position <= i < row.len() ==> (#[trigger] row[i]).sequence > event.sequence,
    ensures
        placed(row, event) == row.insert(position, event),
    decreases row.len(),
{
    if position == row.len() {
        assert(row.insert(position, event) =~= row.push(event));
        assert(placed(row, event) == row.push(event)) by {
            if row.len() > 0 {
                assert(row.last() == row[position - 1]);
            }
        }
    } else {
        assert(row.last() == row[row.len() - 1]);
        lemma_placed_at(row.drop_last(), event, position);
        assert(row.drop_last().insert(position, event).push(row.last()) =~= row.insert(
            position,
            event,
        ));
    }
}

/// The events are in the order of their sequences, and no event is lost or
/// added.
pub proof fn law_order_is_by_sequence(events: Seq<EventView>)
    ensures
        forall|i: int, j: int|
            0 <= i < j < in_order(events).len() ==> (#[trigger] in_order(events)[i]).sequence <= (
            #[trigger] in_order(events)[j]).sequence,
        in_order(events).to_multiset() =~= events.to_multiset(),
    decreases events.len(),
{
    broadcast use vstd::seq_lib::group_to_multiset_ensures;

    if events.len() > 0 {
        let row = in_order(events.drop_last());
        law_order_is_by_sequence(events.drop_last());
        lemma_placed(row, events.last());
        assert(events.drop_last().push(events.last()) =~= events);
    }
}

proof fn lemma_placed(row: Seq<EventView>, event: EventView)
    requires
        forall|i: int, j: int|
            0 <= i < j < row.len() ==> (#[trigger] row[i]).sequence <= (
            #[trigger] row[j]).sequence,
    ensures
        placed(row, event).len() == row.len() + 1,
        placed(row, event).to_multiset() =~= row.to_multiset().insert(event),
        forall|i: int, j: int|
            0 <= i < j < placed(row, event).len() ==> (#[trigger] placed(row, event)[i]).sequence
                <= (#[trigger] placed(row, event)[j]).sequence,
        forall|i: int|
            0 <= i < placed(row, event).len() ==> (#[trigger] placed(row, event)[i]).sequence
                <= event.sequence || (row.len() > 0 && placed(row, event)[i].sequence
                <= row.last().sequence),
    decreases row.len(),
{
    broadcast use vstd::seq_lib::group_to_multiset_ensures;

    if row.len() == 0 || row.last().sequence <= event.sequence {
    } else {
        lemma_placed(row.drop_last(), event);
        assert(row.drop_last().push(row.last()) =~= row);
        if row.len() > 1 {
            assert(row.drop_last().last() == row[row.len() - 2]);
        }
    }
}

/// The positions of events, in the order in which they are replayed.
fn replay_order(events: &Vec<PolicyEvent>) -> (order: Vec<usize>)
    ensures
        order@.len() == events@.len(),
        forall|i: int| 0 <= i < order@.len() ==> #[trigger] order@[i] < events@.len(),
        forall|i: int|
            0 <= i < order@.len() ==> events@[#[trigger] order@[i] as int]@ == in_order(
                event_views(events@),
            )[i],
        in_order(event_views(events@)).len() == events@.len(),
{
    let mut order: Vec<usize> = Vec::new();
    let mut index: usize = 0;
    let ghost all = event_views(events@);
    assert(all.take(0) =~= Seq::empty());
    while index < events.len()
        invariant
            index <= events.len(),
            all == event_views(events@),
            order@.len() == index,
            in_order(all.take(index as int)).len() == index,
            forall|i: int| 0 <= i < index ==> #[trigger] order@[i] < events@.len(),
            forall|i: int|
                0 <= i < index ==> events@[#[trigger] order@[i] as int]@ == in_order(
                    all.take(index as int),
                )[i],
        decreases events.len() - index,
    {
        let ghost row = in_order(all.take(index as int));
        let sequence: u64 = events[index].sequence;
        let mut position: usize = order.len();
        while position > 0 && events[order[position - 1]].sequence > sequence
            invariant
                position <= index,
                index < events.len(),
                order@.len() == index,
                row.len() == index,
                sequence == events@[index as int].sequence,
                forall|i: int| 0 <= i < index ==> #[trigger] order@[i] < events@.len(),
                forall|i: int| 0 <= i < index ==> events@[#[trigger] order@[i] as int]@ == row[i],
                forall|i: int|
                    position <= i < index ==> (#[trigger] row[i]).sequence > sequence,
            decreases position,
        {
            assert(events@[order@[position - 1] as int]@ == row[position - 1]);
            position -= 1;
        }
        proof {
            if position > 0 {
                assert(events@[order@[position - 1] as int]@ == row[position - 1]);
            }
            assert(all.take(index + 1).drop_last() =~= all.take(index as int));
            assert(all.take(index + 1).last() == events@[index as int]@);
            lemma_placed_at(row, events@[index as int]@, position as int);
        }
        let ghost before = order@;
        order.insert(position, index);
        proof {
            let placed_row = in_order(all.take(index + 1));
            assert(placed_row == row.insert(position as int, events@[index as int]@));
            assert forall|i: int| 0 <= i < index + 1 implies events@[#[trigger] order@[i] as int]@
                == placed_row[i] && order@[i] < events@.len() by {
                if i < position {
                    assert(order@[i] == before[i]);
                } else if i > position {
                    assert(order@[i] == before[i - 1]);
                }
            }
        }
        index += 1;
    }
    assert(all.take(index as int) =~= all);
    order
}

/// What the ledger tells of the dispatches.
pub struct DispatchReplay {
    pub seen: OrderedMap<String, SeenDispatch>,
    pub order: OrderedMap<u64, String>,
    pub control: PolicyControlState,
}

/// The value of a replay.
pub struct ReplayView {
    pub seen: Map<Seq<char>, SeenView>,
    /// The decisions by the sequence of their intents.
    pub order: Map<u64, Seq<char>>,
    pub control: ControlView,
}

pub open spec fn seen_views(seen: Map<Seq<char>, SeenDispatch>) -> Map<Seq<char>, SeenView> {
    seen.map_values(|dispatch: SeenDispatch| dispatch@)
}

pub open spec fn order_views(order: Map<u64, String>) -> Map<u64, Seq<char>> {
    order.map_values(|id: String| id@)
}

impl View for DispatchReplay {
    type V = ReplayView;

    open spec fn view(&self) -> ReplayView {
        ReplayView {
            seen: seen_views(self.seen@),
            order: order_views(self.order@),
            control: self.control@,
        }
    }
}

pub open spec fn recovery_error(code: &'static str) -> RuntimeHostError {
    policy_fatal(code, "recover_policy_dispatches")
}

pub open spec fn execution_error(code: &'static str) -> RuntimeHostError {
    policy_fatal(code, "recover_policy_execution")
}

impl ReplayView {
    pub open spec fn empty() -> ReplayView {
        ReplayView {
            seen: Map::empty(),
            order: Map::empty(),
            control: ControlView {
                task_daily: Map::empty(),
                task_window: Map::empty(),
                task_runtime: Map::empty(),
                activity_daily: Map::empty(),
                activity_window: Map::empty(),
                activity_runtime: Map::empty(),
                next_activity_eligible: Map::empty(),
                failure_streaks: Map::empty(),
            },
        }
    }

    /// A new intent.
    pub open spec fn with_intent(self, shelf: CatalogShelf, sequence: u64, data: DispatchView) ->
        Result<ReplayView, RuntimeHostError> {
        if !digests_valid(data) {
            Err(event_refused())
        } else if shelf.lookup(data.catalog_hash) is Err {
            Err(shelf.lookup(data.catalog_hash)->Err_0)
        } else if self.seen.contains_key(data.decision_id) {
            Err(recovery_error("policy_decision_identity_conflict"))
        } else if self.order.contains_key(sequence) {
            Err(recovery_error("policy_dispatch_sequence_conflict"))
        } else {
            Ok(
                ReplayView {
                    seen: self.seen.insert(
                        data.decision_id,
                        SeenView {
                            data,
                            admission: None,
                            execution: None,
                            intent_sequence: sequence,
                            admitted_sequence: None,
                            rejected_sequence: None,
                            completed_sequence: None,
                            lifecycle: DispatchLifecycle::Intent,
                        },
                    ),
                    order: self.order.insert(sequence, data.decision_id),
                    ..self
                },
            )
        }
    }

    /// The dispatch of an event after a step of its life.
    pub open spec fn step(
        self,
        data: DispatchView,
        expected: DispatchLifecycle,
        next: DispatchLifecycle,
        sequence: u64,
    ) -> Result<SeenView, RuntimeHostError> {
        if !self.seen.contains_key(data.decision_id) {
            Err(recovery_error("policy_dispatch_intent_missing"))
        } else {
            self.seen[data.decision_id].transitioned(data, expected, next, sequence)
        }
    }

    /// An admission, charged to the budgets.
    pub open spec fn with_admission(
        self,
        shelf: CatalogShelf,
        sequence: u64,
        data: DispatchView,
        admission: Option<AdmissionView>,
    ) -> Result<ReplayView, RuntimeHostError> {
        let stepped = self.step(
            data,
            DispatchLifecycle::Intent,
            DispatchLifecycle::Admitted,
            sequence,
        );
        let found = shelf.lookup(data.catalog_hash);
        if stepped is Err {
            Err(stepped->Err_0)
        } else if admission is None {
            Err(recovery_error("policy_dispatch_admission_missing"))
        } else if found is Err {
            Err(found->Err_0)
        } else {
            let catalog = found->Ok_0.compiled;
            let admission = admission->0;
            let now = admission.activity.admitted_at_unix_ms;
            match remade_intent(data, catalog, admission) {
                Err(error) => Err(error),
                Ok(intent) => match self.control.admission(
                    catalog,
                    intent,
                    now,
                    drawn_seed(catalog, intent, now),
                ) {
                    Err(error) => Err(error),
                    Ok(expected) => if expected != admission {
                        Err(policy_fatal("policy_budget_receipt_mismatch", "commit_policy_budget"))
                    } else {
                        Ok(
                            ReplayView {
                                seen: self.seen.insert(
                                    data.decision_id,
                                    SeenView { admission: Some(admission), ..stepped->Ok_0 },
                                ),
                                control: self.control.after_admission(
                                    intent.task_id,
                                    intent.instance_id,
                                    admission,
                                ),
                                ..self
                            },
                        )
                    },
                },
            }
        }
    }

    pub open spec fn with_rejection(self, sequence: u64, data: DispatchView) -> Result<
        ReplayView,
        RuntimeHostError,
    > {
        match self.step(data, DispatchLifecycle::Intent, DispatchLifecycle::Rejected, sequence) {
            Err(error) => Err(error),
            Ok(stepped) => Ok(
                ReplayView { seen: self.seen.insert(data.decision_id, stepped), ..self },
            ),
        }
    }

    /// A completion. It follows the record of the execution.
    pub open spec fn with_completion(
        self,
        sequence: u64,
        data: DispatchView,
        admission: Option<AdmissionView>,
    ) -> Result<ReplayView, RuntimeHostError> {
        match self.step(
            data,
            DispatchLifecycle::Admitted,
            DispatchLifecycle::Completed,
            sequence,
        ) {
            Err(error) => Err(error),
            Ok(stepped) => if stepped.execution is None || admission != stepped.admission {
                Err(recovery_error("policy_dispatch_completion_incomplete"))
            } else {
                Ok(ReplayView { seen: self.seen.insert(data.decision_id, stepped), ..self })
            },
        }
    }

    /// The record of an execution, counted.
    pub open spec fn with_execution(self, shelf: CatalogShelf, data: ExecutionView) -> Result<
        ReplayView,
        RuntimeHostError,
    > {
        let dispatch = self.seen[data.decision_id];
        let found = shelf.lookup(dispatch.data.catalog_hash);
        if !self.seen.contains_key(data.decision_id) {
            Err(execution_error("policy_dispatch_intent_missing"))
        } else if dispatch.lifecycle != DispatchLifecycle::Admitted || dispatch.execution is Some {
            Err(execution_error("policy_execution_lifecycle_invalid"))
        } else if dispatch.admission is None {
            Err(execution_error("policy_dispatch_admission_missing"))
        } else if found is Err {
            Err(found->Err_0)
        } else {
            let catalog = found->Ok_0.compiled;
            let admission = dispatch.admission->0;
            match remade_intent(dispatch.data, catalog, admission) {
                Err(error) => Err(error),
                Ok(intent) => match self.control.replayed_execution(
                    catalog,
                    intent,
                    admission,
                    data,
                ) {
                    Err(error) => Err(error),
                    Ok(expected) => if expected != data {
                        Err(
                            policy_fatal(
                                "policy_execution_record_mismatch",
                                "commit_policy_outcome",
                            ),
                        )
                    } else {
                        Ok(
                            ReplayView {
                                seen: self.seen.insert(
                                    data.decision_id,
                                    SeenView { execution: Some(data), ..dispatch },
                                ),
                                control: self.control.after_execution(intent, admission, data),
                                ..self
                            },
                        )
                    },
                },
            }
        }
    }

    pub open spec fn with_event(self, shelf: CatalogShelf, event: EventView) -> Result<
        ReplayView,
        RuntimeHostError,
    > {
        match event.payload {
            PayloadView::DispatchIntent { data } => self.with_intent(shelf, event.sequence, data),
            PayloadView::DispatchAdmitted { data, admission } => self.with_admission(
                shelf,
                event.sequence,
                data,
                admission,
            ),
            PayloadView::DispatchRejected { data } => self.with_rejection(event.sequence, data),
            PayloadView::DispatchCompleted { data, admission } => self.with_completion(
                event.sequence,
                data,
                admission,
            ),
            PayloadView::ExecutionRecorded { data } => self.with_execution(shelf, data),
            PayloadView::PlanningSignalObserved => Err(
                recovery_error("policy_recovery_query_mismatch"),
            ),
            PayloadView::Other => Ok(self),
        }
    }

    pub open spec fn with_events(self, shelf: CatalogShelf, events: Seq<EventView>) -> Result<
        ReplayView,
        RuntimeHostError,
    >
        decreases events.len(),
    {
        if events.len() == 0 {
            Ok(self)
        } else {
            match self.with_events(shelf, events.drop_last()) {
                Err(error) => Err(error),
                Ok(earlier) => earlier.with_event(shelf, events.last()),
            }
        }
    }

    /// The generations of the dispatches that are not over.
    pub open spec fn pinned(self, shelf: CatalogShelf) -> Map<Seq<char>, GenerationView> {
        Map::new(
            |id: Seq<char>| self.seen.contains_key(id) && is_live(self.seen[id].lifecycle),
            |id: Seq<char>|
                shelf.lookup(self.seen[id].data.catalog_hash)->Ok_0.generation@,
        )
    }

    /// What holds of every replay: decisions stand under their ids, their
    /// generations are stored, and what is admitted has an admission.
    pub open spec fn wf(self, shelf: CatalogShelf) -> bool {
        &&& forall|id: Seq<char>| #[trigger]
            self.seen.contains_key(id) ==> {
                let dispatch = self.seen[id];
                &&& dispatch.data.decision_id == id
                &&& shelf.lookup(dispatch.data.catalog_hash) is Ok
                &&& digests_valid(dispatch.data)
                &&& self.order.contains_key(dispatch.intent_sequence)
                &&& self.order[dispatch.intent_sequence] == id
                &&& (dispatch.lifecycle == DispatchLifecycle::Admitted || dispatch.lifecycle
                    == DispatchLifecycle::Completed) == dispatch.admission is Some
                &&& dispatch.execution is Some ==> dispatch.admission is Some
                &&& dispatch.lifecycle == DispatchLifecycle::Completed ==> dispatch.execution is Some
            }
        &&& forall|sequence: u64| #[trigger]
            self.order.contains_key(sequence) ==> self.seen.contains_key(self.order[sequence])
                && self.seen[self.order[sequence]].intent_sequence == sequence
    }
}

/// A dispatch that is not over.
pub open spec fn is_live(lifecycle: DispatchLifecycle) -> bool {
    lifecycle == DispatchLifecycle::Intent || lifecycle == DispatchLifecycle::Admitted
}

/// Replaying events keeps the records consistent: the order of the decisions
/// and the decisions name each other, and nothing is completed that was not
/// admitted and executed.
pub proof fn law_replay_is_consistent(replay: ReplayView, shelf: CatalogShelf, events: Seq<EventView>)
    requires
        replay.wf(shelf),
    ensures
        replay.with_events(shelf, events) matches Ok(after) ==> after.wf(shelf),
    decreases events.len(),
{
    if events.len() > 0 {
        law_replay_is_consistent(replay, shelf, events.drop_last());
    }
}

proof fn lemma_replay_stops_at_error(
    replay: ReplayView,
    shelf: CatalogShelf,
    events: Seq<EventView>,
    count: int,
)
    requires
        0 <= count <= events.len(),
        replay.with_events(shelf, events.take(count)) is Err,
    ensures
        replay.with_events(shelf, events) == replay.with_events(shelf, events.take(count)),
    decreases events.len(),
{
    if count == events.len() {
        assert(events.take(count) =~= events);
    } else {
        assert(events.drop_last().take(count) =~= events.take(count));
        lemma_replay_stops_at_error(replay, shelf, events.drop_last(), count);
    }
}

fn same_optional_admission(
    left: &Option<PolicyAdmissionRecord>,
    right: &Option<PolicyAdmissionRecord>,
) -> (same: bool)
    ensures
        same == (optional_admission(*left) == optional_admission(*right)),
{
    match (left, right) {
        (Some(left), Some(right)) => same_admission(left, right),
        (None, None) => true,
        _ => false,
    }
}

/// The replay that follows, or the error.
pub open spec fn replay_is(
    result: RuntimeHostResult<()>,
    after: ReplayView,
    expected: Result<ReplayView, RuntimeHostError>,
) -> bool {
    match expected {
        Ok(replay) => result == Ok::<(), RuntimeHostError>(()) && after == replay,
        Err(error) => result == Err::<(), _>(error),
    }
}

impl DispatchReplay {
    pub open spec fn wf(&self) -> bool {
        self.seen.wf() && self.order.wf() && self.control.wf()
    }

    pub fn new() -> (replay: Self)
        ensures
            replay.wf(),
            replay@ == ReplayView::empty(),
    {
        let replay = DispatchReplay {
            seen: OrderedMap::new(),
            order: OrderedMap::new(),
            control: PolicyControlState::new(),
        };
        assert(replay@.seen =~= Map::empty());
        assert(replay@.order =~= Map::empty());
        replay
    }

    /// Takes a dispatch out and moves it a step on.
    fn take_step(
        &mut self,
        data: &PolicyDispatchEventData,
        expected: DispatchLifecycle,
        next: DispatchLifecycle,
        sequence: u64,
    ) -> (result: RuntimeHostResult<SeenDispatch>)
        requires
            old(self).wf(),
        ensures
            final(self).wf(),
            final(self).order == old(self).order,
            final(self).control == old(self).control,
            match old(self)@.step(data@, expected, next, sequence) {
                Ok(stepped) => result matches Ok(dispatch) && dispatch@ == stepped
                    && final(self).seen@ == old(self).seen@.remove(data.decision_id@),
                Err(error) => result matches Err(actual) && actual == error,
            },
    {
        match self.seen.remove(&data.decision_id) {
            None => Err(fatal("policy_dispatch_intent_missing", "recover_policy_dispatches")),
            Some(dispatch) => {
                let mut dispatch = dispatch;
                dispatch.transition_dispatch(data, expected, next, sequence)?;
                Ok(dispatch)
            },
        }
    }

    /// Puts a dispatch back in.
    fn put_back(&mut self, decision_id: &String, dispatch: SeenDispatch)
        requires
            old(self).wf(),
        ensures
            final(self).wf(),
            final(self).seen@ == old(self).seen@.insert(decision_id@, dispatch),
            final(self)@ == (ReplayView {
                seen: old(self)@.seen.insert(decision_id@, dispatch@),
                ..old(self)@
            }),
    {
        self.seen.insert(decision_id.clone(), dispatch);
        assert(self@.seen =~= old(self)@.seen.insert(decision_id@, dispatch@));
    }

    fn add_intent(&mut self, shelf: &CatalogShelf, sequence: u64, data: &PolicyDispatchEventData) -> (result:
        RuntimeHostResult<()>)
        requires
            old(self).wf(),
            shelf.wf(),
        ensures
            final(self).wf(),
            replay_is(result, final(self)@, old(self)@.with_intent(*shelf, sequence, data@)),
    {
        check_event_data(data)?;
        let _ = shelf.load_generation(data.catalog_hash.as_str())?;
        if self.seen.contains(&data.decision_id) {
            return Err(fatal("policy_decision_identity_conflict", "recover_policy_dispatches"));
        }
        if self.order.contains(&sequence) {
            return Err(fatal("policy_dispatch_sequence_conflict", "recover_policy_dispatches"));
        }
        let record = SeenDispatch {
            data: data.copy(),
            admission: None,
            execution: None,
            intent_sequence: sequence,
            admitted_sequence: None,
            rejected_sequence: None,
            completed_sequence: None,
            lifecycle: DispatchLifecycle::Intent,
        };
        self.put_back(&data.decision_id, record);
        self.order.insert(sequence, data.decision_id.clone());
        assert(self@.order =~= old(self)@.order.insert(sequence, data.decision_id@));
        Ok(())
    }

    fn add_admission(
        &mut self,
        shelf: &CatalogShelf,
        sequence: u64,
        data: &PolicyDispatchEventData,
        admission: &Option<PolicyAdmissionRecord>,
    ) -> (result: RuntimeHostResult<()>)
        requires
            old(self).wf(),
            shelf.wf(),
        ensures
            final(self).wf(),
            replay_is(
                result,
                final(self)@,
                old(self)@.with_admission(
                    *shelf,
                    sequence,
                    data@,
                    optional_admission(*admission),
                ),
            ),
    {
        let mut dispatch = self.take_step(
            data,
            DispatchLifecycle::Intent,
            DispatchLifecycle::Admitted,
            sequence,
        )?;
        let admission = match admission {
            Some(admission) => admission,
            None => {
                return Err(fatal("policy_dispatch_admission_missing", "recover_policy_dispatches"));
            },
        };
        let catalog = shelf.load_generation(data.catalog_hash.as_str())?;
        let intent = control_intent(data, &catalog.compiled, admission)?;
        self.control.commit_admission(&catalog.compiled, &intent, admission)?;
        dispatch.admission = Some(admission.copy());
        self.put_back(&data.decision_id, dispatch);
        assert(self@.seen =~= old(self)@.seen.insert(data.decision_id@, dispatch@));
        Ok(())
    }

    fn add_rejection(&mut self, sequence: u64, data: &PolicyDispatchEventData) -> (result:
        RuntimeHostResult<()>)
        requires
            old(self).wf(),
        ensures
            final(self).wf(),
            replay_is(result, final(self)@, old(self)@.with_rejection(sequence, data@)),
    {
        let dispatch = self.take_step(
            data,
            DispatchLifecycle::Intent,
            DispatchLifecycle::Rejected,
            sequence,
        )?;
        self.put_back(&data.decision_id, dispatch);
        assert(self@.seen =~= old(self)@.seen.insert(data.decision_id@, dispatch@));
        Ok(())
    }

    fn add_completion(
        &mut self,
        sequence: u64,
        data: &PolicyDispatchEventData,
        admission: &Option<PolicyAdmissionRecord>,
    ) -> (result: RuntimeHostResult<()>)
        requires
            old(self).wf(),
        ensures
            final(self).wf(),
            replay_is(
                result,
                final(self)@,
                old(self)@.with_completion(sequence, data@, optional_admission(*admission)),
            ),
    {
        let dispatch = self.take_step(
            data,
            DispatchLifecycle::Admitted,
            DispatchLifecycle::Completed,
            sequence,
        )?;
        if dispatch.execution.is_none() || !same_optional_admission(
            admission,
            &dispatch.admission,
        ) {
            return Err(
                fatal("policy_dispatch_completion_incomplete", "recover_policy_dispatches"),
            );
        }
        self.put_back(&data.decision_id, dispatch);
        assert(self@.seen =~= old(self)@.seen.insert(data.decision_id@, dispatch@));
        Ok(())
    }

    fn add_execution(&mut self, shelf: &CatalogShelf, data: &PolicyExecutionEventData) -> (result:
        RuntimeHostResult<()>)
        requires
            old(self).wf(),
            shelf.wf(),
        ensures
            final(self).wf(),
            replay_is(result, final(self)@, old(self)@.with_execution(*shelf, data@)),
    {
        let mut dispatch = match self.seen.remove(&data.decision_id) {
            Some(dispatch) => dispatch,
            None => {
                return Err(fatal("policy_dispatch_intent_missing", "recover_policy_execution"));
            },
        };
        if dispatch.lifecycle != DispatchLifecycle::Admitted || dispatch.execution.is_some() {
            return Err(fatal("policy_execution_lifecycle_invalid", "recover_policy_execution"));
        }
        let admission = match &dispatch.admission {
            Some(admission) => admission,
            None => {
                return Err(fatal("policy_dispatch_admission_missing", "recover_policy_execution"));
            },
        };
        let catalog = shelf.load_generation(dispatch.data.catalog_hash.as_str())?;
        let intent = control_intent(&dispatch.data, &catalog.compiled, admission)?;
        self.control.commit_execution(&catalog.compiled, &intent, admission, data)?;
        dispatch.execution = Some(data.copy());
        self.put_back(&data.decision_id, dispatch);
        assert(self@.seen =~= old(self)@.seen.insert(data.decision_id@, dispatch@));
        Ok(())
    }

    fn add_event(&mut self, shelf: &CatalogShelf, event: &PolicyEvent) -> (result:
        RuntimeHostResult<()>)
        requires
            old(self).wf(),
            shelf.wf(),
        ensures
            final(self).wf(),
            replay_is(result, final(self)@, old(self)@.with_event(*shelf, event@)),
    {
        match &event.payload {
            PolicyEventPayload::DispatchIntent { data } => self.add_intent(
                shelf,
                event.sequence,
                data,
            ),
            PolicyEventPayload::DispatchAdmitted { data, admission } => self.add_admission(
                shelf,
                event.sequence,
                data,
                admission,
            ),
            PolicyEventPayload::DispatchRejected { data } => self.add_rejection(
                event.sequence,
                data,
            ),
            PolicyEventPayload::DispatchCompleted { data, admission } => self.add_completion(
                event.sequence,
                data,
                admission,
            ),
            PolicyEventPayload::ExecutionRecorded { data } => self.add_execution(shelf, data),
            PolicyEventPayload::PlanningSignalObserved => Err(
                fatal("policy_recovery_query_mismatch", "recover_policy_dispatches"),
            ),
            PolicyEventPayload::Other => Ok(()),
        }
    }
}

/// The dispatches and the budgets that a ledger tells of. The events may come
/// in any order.
pub fn recover_dispatches(shelf: &CatalogShelf, events: &Vec<PolicyEvent>) -> (result:
    RuntimeHostResult<DispatchReplay>)
    requires
        shelf.wf(),
    ensures
        match ReplayView::empty().with_events(*shelf, in_order(event_views(events@))) {
            Ok(expected) => result matches Ok(replay) && replay.wf() && replay@ == expected
                && expected.wf(*shelf),
            Err(error) => result matches Err(actual) && actual == error,
        },
{
    let order = replay_order(events);
    let ghost row = in_order(event_views(events@));
    let mut replay = DispatchReplay::new();
    let mut index: usize = 0;
    assert(row.take(0) =~= Seq::empty());
    while index < order.len()
        invariant
            index <= order.len(),
            order@.len() == row.len(),
            shelf.wf(),
            replay.wf(),
            row == in_order(event_views(events@)),
            forall|i: int| 0 <= i < order@.len() ==> #[trigger] order@[i] < events@.len(),
            forall|i: int|
                0 <= i < order@.len() ==> events@[#[trigger] order@[i] as int]@ == row[i],
            ReplayView::empty().with_events(*shelf, row.take(index as int)) == Ok::<
                ReplayView,
                RuntimeHostError,
            >(replay@),
        decreases order.len() - index,
    {
        let ghost taken = row.take(index + 1);
        proof {
            assert(taken.drop_last() =~= row.take(index as int));
            assert(taken.last() == events@[order@[index as int] as int]@);
        }
        if let Err(error) = replay.add_event(shelf, &events[order[index]]) {
            proof {
                lemma_replay_stops_at_error(ReplayView::empty(), *shelf, row, index + 1);
            }
            return Err(error);
        }
        index += 1;
    }
    proof {
        assert(row.take(row.len() as int) =~= row);
        law_replay_is_consistent(ReplayView::empty(), *shelf, row);
    }
    Ok(replay)
}

pub open spec fn generation_views(pinned: Map<Seq<char>, CatalogGeneration>) -> Map<
    Seq<char>,
    GenerationView,
> {
    pinned.map_values(|generation: CatalogGeneration| generation@)
}

/// The generations of the dispatches that are not over.
pub fn pin_generations(shelf: &CatalogShelf, seen: &OrderedMap<String, SeenDispatch>) -> (result:
    RuntimeHostResult<OrderedMap<String, CatalogGeneration>>)
    requires
        shelf.wf(),
        seen.wf(),
        forall|id: Seq<char>| #[trigger]
            seen@.contains_key(id) ==> shelf.lookup(seen@[id].data.catalog_hash@) is Ok,
    ensures
        result matches Ok(pinned) && pinned.wf() && generation_views(pinned@) == (ReplayView {
            seen: seen_views(seen@),
            ..ReplayView::empty()
        }).pinned(*shelf),
{
    let mut pinned: OrderedMap<String, CatalogGeneration> = OrderedMap::new();
    let mut index: usize = 0;
    while index < seen.entries.len()
        invariant
            index <= seen.entries.len(),
            shelf.wf(),
            seen.wf(),
            pinned.wf(),
            forall|id: Seq<char>| #[trigger]
                seen@.contains_key(id) ==> shelf.lookup(seen@[id].data.catalog_hash@) is Ok,
            forall|id: Seq<char>| #[trigger]
                pinned@.contains_key(id) ==> seen@.contains_key(id) && is_live(seen@[id].lifecycle)
                    && pinned@[id]@ == shelf.lookup(
                    seen@[id].data.catalog_hash@,
                )->Ok_0.generation@,
            forall|i: int|
                0 <= i < index && is_live((#[trigger] seen.entries@[i]).1.lifecycle)
                    ==> pinned@.contains_key(seen.entries@[i].0@),
        decreases seen.entries.len() - index,
    {
        proof {
            lemma_entry(seen.entries@, index as int);
        }
        let dispatch = &seen.entries[index].1;
        if dispatch.lifecycle == DispatchLifecycle::Intent || dispatch.lifecycle
            == DispatchLifecycle::Admitted {
            let catalog = shelf.load_generation(dispatch.data.catalog_hash.as_str())?;
            pinned.insert(seen.entries[index].0.clone(), catalog.generation.copy());
        }
        index += 1;
    }
    proof {
        let expected = (ReplayView { seen: seen_views(seen@), ..ReplayView::empty() }).pinned(
            *shelf,
        );
        assert forall|id: Seq<char>| #[trigger] expected.contains_key(id) implies pinned@.contains_key(
            id,
        ) by {
            let i = seen.keys().index_of(id);
            assert(seen.keys()[i] == id);
            lemma_entry(seen.entries@, i);
            assert(is_live(seen.entries@[i].1.lifecycle));
        }
        assert(generation_views(pinned@) =~= expected);
    }
    Ok(pinned)
}

/// An intent is taken exactly where its digests are valid, its catalog can be
/// loaded, and neither its decision nor its sequence was seen before. It is
/// then an intent and nothing more, and no budget is touched.
pub proof fn law_decision_is_seen_once(
    replay: ReplayView,
    shelf: CatalogShelf,
    sequence: u64,
    data: DispatchView,
)
    ensures
        replay.with_intent(shelf, sequence, data) is Ok <==> {
            &&& digest_text_valid(data.package_digest) && digest_text_valid(
                data.procedure_binding_digest,
            )
            &&& shelf.lookup(data.catalog_hash) is Ok
            &&& !replay.seen.contains_key(data.decision_id)
            &&& !replay.order.contains_key(sequence)
        },
        replay.with_intent(shelf, sequence, data) matches Ok(after) ==> {
            &&& after.seen.contains_key(data.decision_id)
            &&& after.seen[data.decision_id].lifecycle == DispatchLifecycle::Intent
            &&& after.seen[data.decision_id].admission is None
            &&& after.seen[data.decision_id].execution is None
            &&& after.seen[data.decision_id].intent_sequence == sequence
            &&& after.order.contains_key(sequence) && after.order[sequence] == data.decision_id
            &&& after.control == replay.control
            &&& after.with_intent(shelf, sequence, data) is Err
        },
{
}

/// A dispatch is admitted only once, only as an intent, and only with the very
/// admission that the budgets give at that time; the budgets are then charged.
pub proof fn law_admission_is_replayed_from_the_budgets(
    replay: ReplayView,
    shelf: CatalogShelf,
    sequence: u64,
    data: DispatchView,
    admission: Option<AdmissionView>,
)
    requires
        replay.with_admission(shelf, sequence, data, admission) is Ok,
    ensures
        ({
            let after = replay.with_admission(shelf, sequence, data, admission)->Ok_0;
            let id = data.decision_id;
            let granted = admission->0;
            &&& replay.seen.contains_key(id) && replay.seen[id].lifecycle
                == DispatchLifecycle::Intent
            &&& sequence > replay.seen[id].intent_sequence
            &&& after.seen[id].lifecycle == DispatchLifecycle::Admitted
            &&& after.seen[id].admission == admission && admission is Some
            &&& after.seen[id].admitted_sequence == Some(sequence)
            &&& granted.budget.task_daily_used <= granted.budget.task_daily_limit
            &&& granted.budget.activity_daily_used <= granted.budget.activity_daily_limit
            &&& after.control == replay.control.after_admission(
                data.task_id,
                data.instance_id,
                granted,
            )
            &&& after.with_admission(shelf, sequence, data, admission) is Err
            &&& after.order == replay.order
        }),
{
}

/// A rejected dispatch was an intent; nothing is charged for it, and it is
/// never admitted after.
pub proof fn law_rejection_is_final(
    replay: ReplayView,
    shelf: CatalogShelf,
    sequence: u64,
    data: DispatchView,
    later: u64,
    admission: Option<AdmissionView>,
)
    requires
        replay.with_rejection(sequence, data) is Ok,
    ensures
        ({
            let after = replay.with_rejection(sequence, data)->Ok_0;
            let id = data.decision_id;
            &&& replay.seen.contains_key(id) && replay.seen[id].lifecycle
                == DispatchLifecycle::Intent
            &&& after.seen[id].lifecycle == DispatchLifecycle::Rejected
            &&& after.seen[id].rejected_sequence == Some(sequence)
            &&& after.control == replay.control && after.order == replay.order
            &&& after.with_admission(shelf, later, data, admission) is Err
            &&& after.with_completion(later, data, admission) is Err
        }),
{
}

/// An execution is counted only for a dispatch that runs and has none yet, and
/// only the record that the state gives; a dispatch is completed only after
/// its execution was recorded, with the admission that it has.
pub proof fn law_completion_follows_execution(
    replay: ReplayView,
    shelf: CatalogShelf,
    data: ExecutionView,
    sequence: u64,
    dispatch: DispatchView,
    admission: Option<AdmissionView>,
)
    ensures
        replay.with_execution(shelf, data) matches Ok(after) ==> {
            &&& replay.seen.contains_key(data.decision_id)
            &&& replay.seen[data.decision_id].lifecycle == DispatchLifecycle::Admitted
            &&& replay.seen[data.decision_id].execution is None
            &&& after.seen[data.decision_id].execution == Some(data)
            &&& after.seen[data.decision_id].lifecycle == DispatchLifecycle::Admitted
            &&& after.with_execution(shelf, data) is Err
            &&& after.order == replay.order
        },
        replay.with_completion(sequence, dispatch, admission) matches Ok(after) ==> {
            &&& replay.seen[dispatch.decision_id].lifecycle == DispatchLifecycle::Admitted
            &&& replay.seen[dispatch.decision_id].execution is Some
            &&& replay.seen[dispatch.decision_id].admission == admission
            &&& after.seen[dispatch.decision_id].lifecycle == DispatchLifecycle::Completed
            &&& after.seen[dispatch.decision_id].completed_sequence == Some(sequence)
            &&& after.control == replay.control && after.order == replay.order
        },
{
}

/// An event about one decision leaves every other decision as it was, and no
/// decision is ever forgotten.
pub proof fn law_decisions_do_not_touch_each_other(
    replay: ReplayView,
    shelf: CatalogShelf,
    event: EventView,
    other: Seq<char>,
)
    requires
        replay.with_event(shelf, event) is Ok,
        match event.payload {
            PayloadView::DispatchIntent { data } => data.decision_id != other,
            PayloadView::DispatchAdmitted { data, .. } => data.decision_id != other,
            PayloadView::DispatchRejected { data } => data.decision_id != other,
            PayloadView::DispatchCompleted { data, .. } => data.decision_id != other,
            PayloadView::ExecutionRecorded { data } => data.decision_id != other,
            _ => true,
        },
    ensures
        replay.with_event(shelf, event)->Ok_0.seen.contains_key(other) == replay.seen.contains_key(
            other,
        ),
        replay.with_event(shelf, event)->Ok_0.seen[other] == replay.seen[other],
{
}

/// Replaying two stretches of events is replaying the second on what the first
/// gave.
pub proof fn law_stretches_are_replayed_as_one(
    replay: ReplayView,
    shelf: CatalogShelf,
    first: Seq<EventView>,
    second: Seq<EventView>,
)
    ensures
        replay.with_events(shelf, first + second) == match replay.with_events(shelf, first) {
            Ok(between) => between.with_events(shelf, second),
            Err(error) => Err(error),
        },
    decreases second.len(),
{
    if second.len() == 0 {
        assert(first + second =~= first);
    } else {
        law_stretches_are_replayed_as_one(replay, shelf, first, second.drop_last());
        assert((first + second).drop_last() =~= first + second.drop_last());
        assert((first + second).last() == second.last());
    }
}

/// A generation is held for a decision exactly as long as the decision waits or
/// runs, and it is the generation that the decision was made on.
pub proof fn law_live_decisions_hold_their_generation(
    replay: ReplayView,
    shelf: CatalogShelf,
    id: Seq<char>,
)
    ensures
        replay.pinned(shelf).contains_key(id) <==> replay.seen.contains_key(id) && (
        replay.seen[id].lifecycle == DispatchLifecycle::Intent || replay.seen[id].lifecycle
            == DispatchLifecycle::Admitted),
        replay.pinned(shelf).contains_key(id) ==> replay.pinned(shelf)[id] == shelf.lookup(
            replay.seen[id].data.catalog_hash,
        )->Ok_0.generation@,
{
}

} // verus!
