//! Following dispatches: what is pending, what runs, what it came to.

use vstd::prelude::*;

use crate::error::{RuntimeHostError, RuntimeHostResult};
use crate::ordered_map::{lemma_entry, OrderedKey};
use crate::policy::catalog::{fatal, policy_fatal, policy_request, request, DispatchIntent};
use crate::policy::control::{drawn_seed, PolicyAdmissionRecord};
use crate::policy::dispatch::{
    dispatch_event_data, dispatch_of, DispatchLifecycle, DispatchView, PolicyDispatchEventData,
    PolicyDispatchProjectionState, SeenDispatch, SeenView,
};
use crate::policy::evaluation::DecisionReasonChain;
use crate::policy::generation::CatalogGeneration;
use crate::policy::host::{PolicyDispatchAdmission, PolicyHost};
use crate::policy::recovery::{
    event_views, generation_views, in_order, pin_generations, recover_dispatches, PolicyEvent,
    ReplayView,
};
use crate::text::same_text;

verus! {

/// Where a page of decisions goes on.
#[derive(Debug, Clone)]
pub struct ProjectDecisionPageCursor {
    pub snapshot_ledger_position: u64,
    pub before_intent_sequence: u64,
    pub before_decision_id: String,
}

#[derive(Debug, Clone)]
pub struct ProjectDecisionPageRequest {
    pub limit: u16,
    pub cursor: Option<ProjectDecisionPageCursor>,
}

#[derive(Debug, Clone)]
pub struct PolicyDispatchProjection {
    pub data: PolicyDispatchEventData,
    pub state: PolicyDispatchProjectionState,
    pub intent_sequence: u64,
}

/// The value of a projected dispatch.
pub struct ProjectionView {
    pub data: DispatchView,
    pub state: PolicyDispatchProjectionState,
    pub intent_sequence: u64,
}

impl View for PolicyDispatchProjection {
    type V = ProjectionView;

    open spec fn view(&self) -> ProjectionView {
        ProjectionView {
            data: self.data@,
            state: self.state,
            intent_sequence: self.intent_sequence,
        }
    }
}

pub open spec fn projection_views(projections: Seq<PolicyDispatchProjection>) -> Seq<
    ProjectionView,
> {
    projections.map_values(|projection: PolicyDispatchProjection| projection@)
}

/// Decisions, the latest first.
#[derive(Debug, Clone)]
pub struct PolicyDispatchPage {
    pub dispatches: Vec<PolicyDispatchProjection>,
    pub snapshot_ledger_position: u64,
    pub requested_limit: u16,
    pub has_more: bool,
}

/// How a dispatch stood at a position of the ledger.
pub open spec fn projected_at(seen: SeenView, position: u64) -> ProjectionView {
    ProjectionView {
        data: seen.data,
        state: seen.state_at(position),
        intent_sequence: seen.intent_sequence,
    }
}

/// How many of some increasing sequences come before a bound.
pub open spec fn count_before(sequences: Seq<u64>, bound: int) -> nat
    decreases sequences.len(),
{
    if sequences.len() == 0 {
        0
    } else if sequences.last() < bound {
        sequences.len()
    } else {
        count_before(sequences.drop_last(), bound)
    }
}

/// What is counted comes before the bound, what is not counted does not.
pub proof fn law_count_ends_at_the_bound(sequences: Seq<u64>, bound: int)
    ensures
        count_before(sequences, bound) <= sequences.len(),
        count_before(sequences, bound) > 0 ==> sequences[count_before(sequences, bound) - 1]
            < bound,
        forall|i: int|
            count_before(sequences, bound) <= i < sequences.len() ==> #[trigger] sequences[i]
                >= bound,
    decreases sequences.len(),
{
    if sequences.len() > 0 && sequences.last() >= bound {
        let rest = sequences.drop_last();
        law_count_ends_at_the_bound(rest, bound);
        assert forall|i: int|
            count_before(sequences, bound) <= i < sequences.len() implies #[trigger] sequences[i]
            >= bound by {
            if i < rest.len() {
                assert(rest[i] >= bound);
            }
        }
    }
}

/// Pages follow each other without a gap: a page that goes on before the
/// decision with some number lists those with smaller numbers, all of them.
pub proof fn law_pages_follow_each_other(sequences: Seq<u64>, number: int)
    requires
        forall|i: int, j: int|
            0 <= i < j < sequences.len() ==> #[trigger] sequences[i] < #[trigger] sequences[j],
        0 <= number < sequences.len(),
    ensures
        count_before(sequences, sequences[number] as int) == number,
    decreases sequences.len(),
{
    reveal_with_fuel(count_before, 2);
    let rest = sequences.drop_last();
    if number < rest.len() {
        assert(sequences[number] < sequences[rest.len() as int]);
        law_pages_follow_each_other(rest, number);
    } else if rest.len() > 0 {
        assert(sequences[rest.len() - 1] < sequences[number]);
        assert(rest.last() == sequences[rest.len() - 1]);
    }
}

pub open spec fn page_error(code: &'static str) -> RuntimeHostError {
    policy_request(code, "project_policy_dispatches")
}

/// The position at which a page is taken.
pub open spec fn page_position(request: ProjectDecisionPageRequest, current: u64) -> u64 {
    match request.cursor {
        Some(cursor) => cursor.snapshot_ledger_position,
        None => current,
    }
}

/// Only decisions with intents before this bound stand on a page.
pub open spec fn page_bound(request: ProjectDecisionPageRequest, current: u64) -> int {
    match request.cursor {
        Some(cursor) => cursor.before_intent_sequence as int,
        None => current + 1,
    }
}

impl PolicyHost {
    /// How the decision with the given number stood at a position. The
    /// decisions are numbered in the order of their intents.
    pub open spec fn numbered(&self, number: int, position: u64) -> ProjectionView {
        projected_at(
            self.dispatches@.seen[self.dispatches.order.entries@[number].1@],
            position,
        )
    }

    /// A page: the decisions before its bound, the latest first, as many as are
    /// asked for, as they stood at its position.
    pub open spec fn page_is(
        &self,
        current: u64,
        request: ProjectDecisionPageRequest,
        page: PolicyDispatchPage,
    ) -> bool {
        let position = page_position(request, current);
        let count = count_before(self.dispatches.order.keys(), page_bound(request, current));
        &&& page.snapshot_ledger_position == position
        &&& page.requested_limit == request.limit
        &&& page.has_more == (count > request.limit)
        &&& page.dispatches@.len() == (if count > request.limit {
            request.limit as int
        } else {
            count as int
        })
        &&& forall|i: int|
            0 <= i < page.dispatches@.len() ==> (#[trigger] page.dispatches@[i])@
                == self.numbered(count - 1 - i, position)
    }

    /// The error of a page request.
    pub open spec fn page_refusal(
        &self,
        current: u64,
        request: ProjectDecisionPageRequest,
    ) -> Option<RuntimeHostError> {
        let position = page_position(request, current);
        let last = count_before(self.dispatches.order.keys(), page_bound(request, current)) - 1;
        if position == 0 || position > current {
            Some(page_error("project_decision_cursor_invalid"))
        } else if request.cursor is Some && !(self.dispatches@.order.contains_key(
            (request.cursor->0).before_intent_sequence,
        ) && self.dispatches@.order[(request.cursor->0).before_intent_sequence] == (
        request.cursor->0).before_decision_id@) {
            Some(page_error("project_decision_cursor_invalid"))
        } else if last >= 0 && self.dispatches.order.keys()[last] > position {
            Some(policy_fatal("policy_dispatch_snapshot_invalid", "project_policy_dispatches"))
        } else {
            None
        }
    }

    /// A page of decisions as they stood at a position, the latest first.
    pub fn project_dispatches(
        &self,
        current_ledger_position: u64,
        page_request: Option<&ProjectDecisionPageRequest>,
    ) -> (result: RuntimeHostResult<PolicyDispatchPage>)
        requires
            self.wf(),
        ensures
            match page_request {
                None => result matches Err(error) && error == page_error(
                    "project_decision_page_invalid",
                ),
                Some(request) => match self.page_refusal(current_ledger_position, *request) {
                    Some(refusal) => result matches Err(error) && error == refusal,
                    None => result matches Ok(page) && self.page_is(
                        current_ledger_position,
                        *request,
                        page,
                    ),
                },
            },
    {
        let page_request = match page_request {
            Some(page_request) => page_request,
            None => {
                return Err(request("project_decision_page_invalid", "project_policy_dispatches"));
            },
        };
        let position: u64 = match &page_request.cursor {
            Some(cursor) => cursor.snapshot_ledger_position,
            None => current_ledger_position,
        };
        if position == 0 || position > current_ledger_position {
            return Err(request("project_decision_cursor_invalid", "project_policy_dispatches"));
        }
        if let Some(cursor) = &page_request.cursor {
            let known = match self.dispatches.order.get(&cursor.before_intent_sequence) {
                Some(decision_id) => same_text(
                    decision_id.as_str(),
                    cursor.before_decision_id.as_str(),
                ),
                None => false,
            };
            if !known {
                return Err(request("project_decision_cursor_invalid", "project_policy_dispatches"));
            }
        }
        let bound: u128 = match &page_request.cursor {
            Some(cursor) => cursor.before_intent_sequence as u128,
            None => position as u128 + 1,
        };
        let ghost keys = self.dispatches.order.keys();
        let mut count: usize = self.dispatches.order.entries.len();
        proof {
            assert(keys.take(count as int) =~= keys);
        }
        while count > 0 && self.dispatches.order.entries[count - 1].0 as u128 >= bound
            invariant
                count <= self.dispatches.order.entries@.len(),
                keys == self.dispatches.order.keys(),
                count_before(keys.take(count as int), bound as int) == count_before(
                    keys,
                    bound as int,
                ),
            decreases count,
        {
            proof {
                assert(keys[count - 1] == self.dispatches.order.entries@[count - 1].0);
                assert(keys.take(count as int).drop_last() =~= keys.take(count - 1));
            }
            count -= 1;
        }
        proof {
            if count > 0 {
                assert(keys[count - 1] == self.dispatches.order.entries@[count - 1].0);
                assert(keys.take(count as int).last() == keys[count - 1]);
            }
            assert(count == count_before(keys, bound as int));
        }
        if count > 0 && self.dispatches.order.entries[count - 1].0 > position {
            return Err(fatal("policy_dispatch_snapshot_invalid", "project_policy_dispatches"));
        }
        let limit: usize = page_request.limit as usize;
        let wanted: usize = if count > limit {
            limit
        } else {
            count
        };
        let mut dispatches: Vec<PolicyDispatchProjection> = Vec::new();
        while dispatches.len() < wanted
            invariant
                dispatches@.len() <= wanted <= count,
                self.wf(),
                count <= self.dispatches.order.entries@.len(),
                forall|i: int|
                    0 <= i < dispatches@.len() ==> (#[trigger] dispatches@[i])@ == self.numbered(
                        count - 1 - i,
                        position,
                    ),
            decreases wanted - dispatches@.len(),
        {
            let number: usize = count - 1 - dispatches.len();
            let decision_id = &self.dispatches.order.entries[number].1;
            proof {
                lemma_entry(self.dispatches.order.entries@, number as int);
                let sequence = self.dispatches.order.entries@[number as int].0;
                assert(self.dispatches@.order.contains_key(sequence));
                assert(self.dispatches@.seen.contains_key(decision_id@));
            }
            match self.dispatches.seen.get(decision_id) {
                Some(dispatch) => {
                    dispatches.push(
                        PolicyDispatchProjection {
                            data: dispatch.data.copy(),
                            state: dispatch.projected_state_at(position),
                            intent_sequence: dispatch.intent_sequence,
                        },
                    );
                },
                None => {
                    return Err(fatal("policy_dispatch_order_corrupt", "project_policy_dispatches"));
                },
            }
        }
        Ok(
            PolicyDispatchPage {
                dispatches,
                snapshot_ledger_position: position,
                requested_limit: page_request.limit,
                has_more: count > limit,
            },
        )
    }

    /// The dispatches that wait for an admission, in the order of their ids.
    pub fn pending_dispatches(&self) -> (pending: Vec<PolicyDispatchProjection>)
        requires
            self.wf(),
        ensures
            projection_views(pending@) == waiting(self.dispatches.seen.entries@),
    {
        let ghost entries = self.dispatches.seen.entries@;
        let mut pending: Vec<PolicyDispatchProjection> = Vec::new();
        let mut index: usize = 0;
        proof {
            assert(entries.take(0) =~= Seq::empty());
            assert(projection_views(pending@) =~= Seq::empty());
        }
        while index < self.dispatches.seen.entries.len()
            invariant
                index <= self.dispatches.seen.entries.len(),
                entries == self.dispatches.seen.entries@,
                projection_views(pending@) == waiting(entries.take(index as int)),
            decreases self.dispatches.seen.entries.len() - index,
        {
            let dispatch = &self.dispatches.seen.entries[index].1;
            proof {
                assert(entries.take(index + 1).drop_last() =~= entries.take(index as int));
            }
            if dispatch.lifecycle == DispatchLifecycle::Intent {
                let ghost before = pending@;
                let projection = PolicyDispatchProjection {
                    data: dispatch.data.copy(),
                    state: PolicyDispatchProjectionState::Intent,
                    intent_sequence: dispatch.intent_sequence,
                };
                pending.push(projection);
                assert(projection_views(pending@) =~= projection_views(before).push(projection@));
            }
            index += 1;
        }
        assert(entries.take(entries.len() as int) =~= entries);
        pending
    }

    /// Rebuilds the dispatches from the ledger. Nothing changes where that
    /// fails.
    pub fn refresh_dispatches(&mut self, events: &Vec<PolicyEvent>) -> (result: RuntimeHostResult<
        (),
    >)
        requires
            old(self).wf(),
        ensures
            final(self).wf(),
            final(self).shelf == old(self).shelf,
            final(self).active == old(self).active,
            final(self).cadence == old(self).cadence,
            final(self).planner == old(self).planner,
            match ReplayView::empty().with_events(
                old(self).shelf,
                in_order(event_views(events@)),
            ) {
                Err(error) => result == Err::<(), _>(error) && *final(self) == *old(self),
                Ok(replayed) => {
                    &&& result == Ok::<(), RuntimeHostError>(())
                    &&& final(self).dispatches@ == replayed
                    &&& generation_views(final(self).pinned@) == replayed.pinned(old(self).shelf)
                },
            },
    {
        let dispatches = recover_dispatches(&self.shelf, events)?;
        proof {
            assert forall|id: Seq<char>| #[trigger]
                dispatches.seen@.contains_key(id) implies self.shelf.lookup(
                dispatches.seen@[id].data.catalog_hash@,
            ) is Ok by {
                assert(dispatches@.seen.contains_key(id));
            }
        }
        let pinned = pin_generations(&self.shelf, &dispatches.seen)?;
        assert(generation_views(pinned@) =~= dispatches@.pinned(self.shelf));
        self.dispatches = dispatches;
        self.pinned = pinned;
        Ok(())
    }

    /// What is answered to a decision that was dispatched before: it is not
    /// dispatched again, and a different dispatch under its id is an error.
    pub fn replay_admission(&self, intent: &DispatchIntent, reason_chain: &DecisionReasonChain) -> (result:
        RuntimeHostResult<Option<PolicyDispatchAdmission>>)
        requires
            self.wf(),
        ensures
            ({
                let id = intent.decision_id@;
                if !self.dispatches@.seen.contains_key(id) {
                    result matches Ok(answer) && answer is None
                } else {
                    match dispatch_of(intent@, *reason_chain) {
                        Err(unbound) => result matches Err(error) && error == unbound,
                        Ok(data) => if self.dispatches@.seen[id].data != data {
                            result matches Err(error) && error == policy_fatal(
                                "policy_decision_identity_conflict",
                                "replay_policy_dispatch",
                            )
                        } else {
                            result matches Ok(
                                Some(
                                    PolicyDispatchAdmission::ReplaySuppressed {
                                        decision_id,
                                        catalog,
                                        original_intent_sequence,
                                    },
                                ),
                            ) && decision_id@ == id && catalog@ == self.shelf.lookup(
                                data.catalog_hash,
                            )->Ok_0.generation@ && original_intent_sequence
                                == self.dispatches@.seen[id].intent_sequence
                        },
                    }
                }
            }),
    {
        let seen = match self.dispatches.seen.get(&intent.decision_id) {
            Some(seen) => seen,
            None => {
                return Ok(None);
            },
        };
        assert(self.dispatches@.seen.contains_key(intent.decision_id@));
        let data = dispatch_event_data(intent, reason_chain)?;
        if !seen.data.same(&data) {
            return Err(fatal("policy_decision_identity_conflict", "replay_policy_dispatch"));
        }
        let loaded = self.shelf.load_generation(seen.data.catalog_hash.as_str())?;
        Ok(
            Some(
                PolicyDispatchAdmission::ReplaySuppressed {
                    decision_id: intent.decision_id.clone(),
                    catalog: loaded.generation.copy(),
                    original_intent_sequence: seen.intent_sequence,
                },
            ),
        )
    }

    /// Charges an admission under the active generation.
    pub fn commit_admission(&mut self, intent: &DispatchIntent, admission: &PolicyAdmissionRecord) -> (result:
        RuntimeHostResult<()>)
        requires
            old(self).wf(),
        ensures
            final(self).wf(),
            final(self).shelf == old(self).shelf,
            final(self).active == old(self).active,
            final(self).cadence == old(self).cadence,
            final(self).pinned == old(self).pinned,
            final(self).planner == old(self).planner,
            final(self).dispatches.seen == old(self).dispatches.seen,
            final(self).dispatches.order == old(self).dispatches.order,
            ({
                let now = admission.activity.admitted_at_unix_ms;
                let control = old(self).dispatches@.control;
                match old(self).active_catalog() {
                    None => final(self).dispatches@.control == control && result == Err::<(), _>(
                        policy_request("policy_catalog_unavailable", "commit_policy_budget"),
                    ),
                    Some(active) => match control.admission(
                        active.compiled,
                        intent@,
                        now,
                        drawn_seed(active.compiled, intent@, now),
                    ) {
                        Err(error) => result == Err::<(), _>(error)
                            && final(self).dispatches@.control == control,
                        Ok(expected) => if expected == admission@ {
                            result == Ok::<(), RuntimeHostError>(())
                                && final(self).dispatches@.control == control.after_admission(
                                intent.task_id@,
                                intent.instance_id@,
                                admission@,
                            )
                        } else {
                            result == Err::<(), _>(
                                policy_fatal(
                                    "policy_budget_receipt_mismatch",
                                    "commit_policy_budget",
                                ),
                            ) && final(self).dispatches@.control == control
                        },
                    },
                }
            }),
    {
        let active = match &self.active {
            Some(hash) => match self.shelf.loaded.get(hash) {
                Some(active) => active,
                None => {
                    return Err(request("policy_catalog_unavailable", "commit_policy_budget"));
                },
            },
            None => {
                return Err(request("policy_catalog_unavailable", "commit_policy_budget"));
            },
        };
        match self.dispatches.control.commit_admission(&active.compiled, intent, admission) {
            Ok(()) => Ok(()),
            Err(error) => Err(error),
        }
    }

    pub fn pinned_catalog(&self, decision_id: &String) -> (generation: Option<CatalogGeneration>)
        requires
            self.wf(),
        ensures
            match generation {
                Some(generation) => self.pinned@.contains_key(decision_id@) && generation@
                    == self.pinned@[decision_id@]@,
                None => !self.pinned@.contains_key(decision_id@),
            },
    {
        match self.pinned.get(decision_id) {
            Some(generation) => Some(generation.copy()),
            None => None,
        }
    }

    /// When a decision was admitted.
    pub fn admitted_at(&self, decision_id: &String) -> (result: RuntimeHostResult<u64>)
        requires
            self.wf(),
        ensures
            ({
                let seen = self.dispatches@.seen;
                if seen.contains_key(decision_id@) && seen[decision_id@].admission is Some {
                    result == Ok::<u64, RuntimeHostError>(
                        (seen[decision_id@].admission->0).activity.admitted_at_unix_ms,
                    )
                } else {
                    result == Err::<u64, _>(
                        policy_request(
                            "policy_dispatch_admission_missing",
                            "read_policy_admission_time",
                        ),
                    )
                }
            }),
    {
        if let Some(dispatch) = self.dispatches.seen.get(decision_id) {
            if let Some(admission) = &dispatch.admission {
                return Ok(admission.activity.admitted_at_unix_ms);
            }
        }
        Err(request("policy_dispatch_admission_missing", "read_policy_admission_time"))
    }

    /// When each dispatch that runs was admitted, in the order of their ids.
    pub fn recovered_dispatch_clocks(&self) -> (result: RuntimeHostResult<Vec<(String, u64)>>)
        requires
            self.wf(),
        ensures
            result is Ok,
            clock_views(result->Ok_0@) == running_clocks(self.dispatches.seen.entries@),
    {
        let ghost entries = self.dispatches.seen.entries@;
        let mut clocks: Vec<(String, u64)> = Vec::new();
        let mut index: usize = 0;
        proof {
            assert(entries.take(0) =~= Seq::empty());
            assert(clock_views(clocks@) =~= Seq::empty());
        }
        while index < self.dispatches.seen.entries.len()
            invariant
                index <= self.dispatches.seen.entries.len(),
                self.wf(),
                entries == self.dispatches.seen.entries@,
                clock_views(clocks@) == running_clocks(entries.take(index as int)),
            decreases self.dispatches.seen.entries.len() - index,
        {
            let entry = &self.dispatches.seen.entries[index];
            proof {
                assert(entries.take(index + 1).drop_last() =~= entries.take(index as int));
                lemma_entry(entries, index as int);
                assert(self.dispatches@.seen.contains_key(entry.0@));
            }
            if entry.1.lifecycle == DispatchLifecycle::Admitted {
                match &entry.1.admission {
                    Some(admission) => {
                        let ghost before = clocks@;
                        let clock = (entry.0.clone(), admission.activity.admitted_at_unix_ms);
                        clocks.push(clock);
                        assert(clock_views(clocks@) =~= clock_views(before).push(
                            (clock.0@, clock.1),
                        ));
                    },
                    None => {
                        return Err(
                            fatal(
                                "policy_dispatch_admission_missing",
                                "recover_policy_dispatch_clocks",
                            ),
                        );
                    },
                }
            }
            index += 1;
        }
        assert(entries.take(entries.len() as int) =~= entries);
        Ok(clocks)
    }

    pub fn execution_instance_id(&self, decision_id: &String) -> (result: RuntimeHostResult<&str>)
        requires
            self.wf(),
        ensures
            if self.dispatches@.seen.contains_key(decision_id@) {
                result matches Ok(id) && id@ == self.dispatches@.seen[decision_id@].data.instance_id
            } else {
                result matches Err(error) && error == policy_request(
                    "policy_dispatch_unknown",
                    "read_policy_dispatch_instance",
                )
            },
    {
        match self.dispatches.seen.get(decision_id) {
            Some(dispatch) => Ok(dispatch.data.instance_id.as_str()),
            None => Err(request("policy_dispatch_unknown", "read_policy_dispatch_instance")),
        }
    }

    /// The dispatch and the admission of a decision that may be completed.
    pub fn completion_data(&self, decision_id: &String) -> (result: RuntimeHostResult<
        (PolicyDispatchEventData, PolicyAdmissionRecord),
    >)
        requires
            self.wf(),
        ensures
            ({
                let id = decision_id@;
                let dispatch = self.dispatches@.seen[id];
                if !self.pinned@.contains_key(id) {
                    result matches Err(error) && error == policy_request(
                        "policy_dispatch_not_pinned",
                        "complete_policy_dispatch",
                    )
                } else if !self.dispatches@.seen.contains_key(id) {
                    result matches Err(error) && error == policy_fatal(
                        "policy_dispatch_state_incomplete",
                        "complete_policy_dispatch",
                    )
                } else if dispatch.admission is None {
                    result matches Err(error) && error == policy_fatal(
                        "policy_dispatch_admission_missing",
                        "complete_policy_dispatch",
                    )
                } else if dispatch.execution is None {
                    result matches Err(error) && error == policy_request(
                        "policy_execution_outcome_missing",
                        "complete_policy_dispatch",
                    )
                } else {
                    result matches Ok(data) && data.0@ == dispatch.data && data.1@
                        == dispatch.admission->0
                }
            }),
    {
        if !self.pinned.contains(decision_id) {
            return Err(request("policy_dispatch_not_pinned", "complete_policy_dispatch"));
        }
        let dispatch = match self.dispatches.seen.get(decision_id) {
            Some(dispatch) => dispatch,
            None => {
                return Err(fatal("policy_dispatch_state_incomplete", "complete_policy_dispatch"));
            },
        };
        let admission = match &dispatch.admission {
            Some(admission) => admission.copy(),
            None => {
                return Err(fatal("policy_dispatch_admission_missing", "complete_policy_dispatch"));
            },
        };
        if dispatch.execution.is_none() {
            return Err(request("policy_execution_outcome_missing", "complete_policy_dispatch"));
        }
        Ok((dispatch.data.copy(), admission))
    }

    /// Gives up the generation that a dispatch depended on.
    pub fn complete_dispatch(&mut self, decision_id: &String) -> (result: RuntimeHostResult<()>)
        requires
            old(self).wf(),
        ensures
            final(self).wf(),
            final(self).shelf == old(self).shelf,
            final(self).active == old(self).active,
            final(self).cadence == old(self).cadence,
            final(self).dispatches == old(self).dispatches,
            final(self).planner == old(self).planner,
            final(self).pinned@ == old(self).pinned@.remove(decision_id@),
            if old(self).pinned@.contains_key(decision_id@) {
                result == Ok::<(), RuntimeHostError>(())
            } else {
                result == Err::<(), _>(
                    policy_request("policy_dispatch_not_pinned", "complete_policy_dispatch"),
                )
            },
    {
        if self.pinned.remove(decision_id).is_none() {
            assert(old(self).pinned@.remove(decision_id@) =~= old(self).pinned@);
            return Err(request("policy_dispatch_not_pinned", "complete_policy_dispatch"));
        }
        Ok(())
    }

    /// Whether a dispatch that was admitted still has to be completed.
    pub fn dispatch_needs_completion(&self, decision_id: &String) -> (result: RuntimeHostResult<
        bool,
    >)
        requires
            self.wf(),
        ensures
            ({
                let seen = self.dispatches@.seen;
                if !seen.contains_key(decision_id@) {
                    result == Err::<bool, _>(
                        policy_request("policy_dispatch_unknown", "read_policy_dispatch_lifecycle"),
                    )
                } else {
                    match seen[decision_id@].lifecycle {
                        DispatchLifecycle::Admitted => result == Ok::<bool, RuntimeHostError>(true),
                        DispatchLifecycle::Completed => result == Ok::<bool, RuntimeHostError>(
                            false,
                        ),
                        _ => result == Err::<bool, _>(
                            policy_request(
                                "policy_dispatch_not_admitted",
                                "read_policy_dispatch_lifecycle",
                            ),
                        ),
                    }
                }
            }),
    {
        match self.dispatches.seen.get(decision_id) {
            None => Err(request("policy_dispatch_unknown", "read_policy_dispatch_lifecycle")),
            Some(dispatch) => match dispatch.lifecycle {
                DispatchLifecycle::Admitted => Ok(true),
                DispatchLifecycle::Completed => Ok(false),
                _ => Err(
                    request("policy_dispatch_not_admitted", "read_policy_dispatch_lifecycle"),
                ),
            },
        }
    }
}

/// The dispatches among some that wait for an admission.
pub open spec fn waiting(entries: Seq<(String, SeenDispatch)>) -> Seq<ProjectionView>
    decreases entries.len(),
{
    if entries.len() == 0 {
        Seq::empty()
    } else if entries.last().1.lifecycle == DispatchLifecycle::Intent {
        waiting(entries.drop_last()).push(
            ProjectionView {
                data: entries.last().1.data@,
                state: PolicyDispatchProjectionState::Intent,
                intent_sequence: entries.last().1.intent_sequence,
            },
        )
    } else {
        waiting(entries.drop_last())
    }
}

pub open spec fn clock_views(clocks: Seq<(String, u64)>) -> Seq<(Seq<char>, u64)> {
    clocks.map_values(|clock: (String, u64)| (clock.0@, clock.1))
}

/// When each of some dispatches that runs was admitted.
pub open spec fn running_clocks(entries: Seq<(String, SeenDispatch)>) -> Seq<(Seq<char>, u64)>
    decreases entries.len(),
{
    if entries.len() == 0 {
        Seq::empty()
    } else if entries.last().1.lifecycle == DispatchLifecycle::Admitted {
        running_clocks(entries.drop_last()).push(
            (
                entries.last().0@,
                (entries.last().1.admission->0).activity.admitted_at_unix_ms,
            ),
        )
    } else {
        running_clocks(entries.drop_last())
    }
}

/// A page lists no more decisions than it was asked for, the latest first, and
/// none that came after its position.
pub proof fn law_page_lists_the_latest_first(
    host: PolicyHost,
    current: u64,
    request: ProjectDecisionPageRequest,
    page: PolicyDispatchPage,
    earlier: int,
    later: int,
)
    requires
        host.wf(),
        host.page_refusal(current, request) is None,
        host.page_is(current, request, page),
        0 <= earlier < later < page.dispatches@.len(),
    ensures
        page.dispatches@.len() <= request.limit,
        page.dispatches@[earlier].intent_sequence > page.dispatches@[later].intent_sequence,
        page.dispatches@[earlier].intent_sequence <= page.snapshot_ledger_position,
        request.cursor matches Some(cursor) ==> page.snapshot_ledger_position
            == cursor.snapshot_ledger_position && page.dispatches@[earlier].intent_sequence
            < cursor.before_intent_sequence,
        request.cursor is None ==> page.snapshot_ledger_position == current,
{
    let keys = host.dispatches.order.keys();
    let bound = page_bound(request, current);
    law_count_ends_at_the_bound(keys, bound);
    let count = count_before(keys, bound);
    lemma_numbered(host, count - 1 - earlier, page.snapshot_ledger_position);
    lemma_numbered(host, count - 1 - later, page.snapshot_ledger_position);
    assert(page.dispatches@[earlier]@ == host.numbered(
        count - 1 - earlier,
        page.snapshot_ledger_position,
    ));
    assert(page.dispatches@[later]@ == host.numbered(
        count - 1 - later,
        page.snapshot_ledger_position,
    ));
    assert(u64::less(keys[count - 1 - later], keys[count - 1 - earlier]));
    if earlier > 0 {
        assert(u64::less(keys[count - 1 - earlier], keys[count - 1]));
    }
}

proof fn lemma_numbered(host: PolicyHost, number: int, position: u64)
    requires
        host.wf(),
        0 <= number < host.dispatches.order.keys().len(),
    ensures
        host.numbered(number, position).intent_sequence == host.dispatches.order.keys()[number],
{
    lemma_entry(host.dispatches.order.entries@, number);
    let sequence = host.dispatches.order.keys()[number];
    assert(host.dispatches@.order.contains_key(sequence));
}

/// The dispatches that wait are exactly those that are still intents, in the
/// order in which they are kept; those that run are exactly those that were
/// admitted, each with the time of its admission.
pub proof fn law_waiting_and_running_are_told_apart(
    entries: Seq<(String, SeenDispatch)>,
    entry: (String, SeenDispatch),
)
    ensures
        waiting(Seq::empty()).len() == 0,
        running_clocks(Seq::empty()).len() == 0,
        entry.1.lifecycle == DispatchLifecycle::Intent ==> waiting(entries.push(entry)).len()
            == waiting(entries).len() + 1 && waiting(entries.push(entry)).last().data
            == entry.1.data@ && waiting(entries.push(entry)).drop_last() =~= waiting(entries),
        entry.1.lifecycle != DispatchLifecycle::Intent ==> waiting(entries.push(entry)) == waiting(
            entries,
        ),
        entry.1.lifecycle == DispatchLifecycle::Admitted ==> running_clocks(
            entries.push(entry),
        ).len() == running_clocks(entries).len() + 1 && running_clocks(entries.push(entry)).last()
            == (entry.0@, (entry.1.admission->0).activity.admitted_at_unix_ms)
            && running_clocks(entries.push(entry)).drop_last() =~= running_clocks(entries),
        entry.1.lifecycle != DispatchLifecycle::Admitted ==> running_clocks(entries.push(entry))
            == running_clocks(entries),
{
    assert(entries.push(entry).drop_last() =~= entries);
}

/// A page that says that there is more is full, and the page that goes on after
/// its last decision begins with the decision right before it: none lies
/// between them.
pub proof fn law_next_page_leaves_no_gap(
    host: PolicyHost,
    current: u64,
    request: ProjectDecisionPageRequest,
    page: PolicyDispatchPage,
    later: u64,
    next_request: ProjectDecisionPageRequest,
    next_page: PolicyDispatchPage,
    sequence: u64,
)
    requires
        host.wf(),
        host.page_is(current, request, page),
        page.has_more,
        request.limit > 0,
        host.page_is(later, next_request, next_page),
        next_request.limit > 0,
        next_request.cursor is Some,
        (next_request.cursor->0).before_intent_sequence == page.dispatches@.last().intent_sequence,
        host.dispatches@.order.contains_key(sequence),
    ensures
        page.dispatches@.len() == request.limit,
        next_page.dispatches@.len() > 0,
        next_page.dispatches@[0].intent_sequence < page.dispatches@.last().intent_sequence,
        sequence >= page.dispatches@.last().intent_sequence || sequence
            <= next_page.dispatches@[0].intent_sequence,
{
    let keys = host.dispatches.order.keys();
    let count = count_before(keys, page_bound(request, current));
    law_count_ends_at_the_bound(keys, page_bound(request, current));
    let number = count - request.limit;
    lemma_numbered(host, number, page.snapshot_ledger_position);
    assert(page.dispatches@.last()@ == host.numbered(number, page.snapshot_ledger_position));
    assert forall|i: int, j: int| 0 <= i < j < keys.len() implies #[trigger] keys[i]
        < #[trigger] keys[j] by {
        assert(u64::less(keys[i], keys[j]));
    }
    law_pages_follow_each_other(keys, number);
    assert(count_before(keys, page_bound(next_request, later)) == number);
    assert(next_page.dispatches@[0]@ == host.numbered(
        number - 1,
        next_page.snapshot_ledger_position,
    ));
    lemma_numbered(host, number - 1, next_page.snapshot_ledger_position);
    assert(keys.contains(sequence));
    let at = keys.index_of(sequence);
    assert(keys[at] == sequence);
}

/// There is more exactly where more decisions lie before the page's bound than
/// it was asked for.
pub proof fn law_full_page_says_that_there_is_more(
    host: PolicyHost,
    current: u64,
    request: ProjectDecisionPageRequest,
    page: PolicyDispatchPage,
)
    requires
        host.wf(),
        host.page_is(current, request, page),
    ensures
        !page.has_more ==> forall|sequence: u64| #[trigger]
            host.dispatches@.order.contains_key(sequence) && sequence < page_bound(
                request,
                current,
            ) ==> exists|i: int|
                0 <= i < page.dispatches@.len() && (#[trigger] page.dispatches@[i]).intent_sequence
                    == sequence,
{
    let keys = host.dispatches.order.keys();
    let bound = page_bound(request, current);
    let count = count_before(keys, bound);
    law_count_ends_at_the_bound(keys, bound);
    if !page.has_more {
        assert forall|sequence: u64| #[trigger]
            host.dispatches@.order.contains_key(sequence) && sequence < bound implies exists|i: int|
            0 <= i < page.dispatches@.len() && (#[trigger] page.dispatches@[i]).intent_sequence
                == sequence by {
            assert(keys.contains(sequence));
            let at = keys.index_of(sequence);
            assert(keys[at] == sequence);
            assert(at < count);
            let i = count - 1 - at;
            assert(page.dispatches@[i]@ == host.numbered(at, page.snapshot_ledger_position));
            lemma_numbered(host, at, page.snapshot_ledger_position);
        }
    }
}

/// A page is refused for a cursor from the future or from nowhere, and for one
/// that no longer names its decision; the first page of a ledger that holds
/// something never is for that.
pub proof fn law_cursors_name_their_decision(
    host: PolicyHost,
    current: u64,
    request: ProjectDecisionPageRequest,
)
    ensures
        request.cursor matches Some(cursor) ==> (host.page_refusal(current, request) is None ==> 0
            < cursor.snapshot_ledger_position <= current && host.dispatches@.order.contains_key(
            cursor.before_intent_sequence,
        ) && host.dispatches@.order[cursor.before_intent_sequence] == cursor.before_decision_id@),
        request.cursor is None ==> page_position(request, current) == current && (current == 0
            ==> host.page_refusal(current, request) is Some),
{
}

} // verus!
