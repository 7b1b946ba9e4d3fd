//! Executions of dispatches: their records, and the load of those that run.

use vstd::prelude::*;

use crate::error::{RuntimeHostError, RuntimeHostResult};
use crate::ordered_map::{lemma_entry, OrderedMap};
use crate::performance::monitor::PerformanceContext;
use crate::performance_control::{LoadProfile, PerformanceControlWorkload};
use crate::policy::catalog::{fatal, policy_fatal, policy_request, request, IntentView};
use crate::policy::control::{
    ExecutionView, InputView, PolicyExecutionEventData, PolicyExecutionInput,
};
use crate::performance::monitor::ContextView;
use crate::policy::dispatch::{
    control_intent, execution_input_matches, outcome_matches, remade_intent, DispatchLifecycle,
    SeenDispatch, SeenView,
};
use crate::policy::generation::CatalogShelf;
use crate::policy::host::PolicyHost;
use crate::policy::recovery::ReplayView;
use crate::text::text_less;

verus! {

/// The record of an execution, made now or before.
#[derive(Debug, Clone)]
pub enum PolicyExecutionPreparation {
    New(PolicyExecutionEventData),
    Replay(PolicyExecutionEventData),
}

pub open spec fn preparation_error(code: &'static str) -> RuntimeHostError {
    policy_request(code, "prepare_policy_execution_outcome")
}

/// The intent of a dispatch that was admitted, made again.
pub open spec fn running_intent(shelf: CatalogShelf, dispatch: SeenView) -> Result<
    IntentView,
    RuntimeHostError,
> {
    match shelf.lookup(dispatch.data.catalog_hash) {
        Err(error) => Err(error),
        Ok(catalog) => remade_intent(dispatch.data, catalog.compiled, dispatch.admission->0),
    }
}

/// What some dispatches that run ask of their instances. No instance runs two
/// at a time.
pub open spec fn running_loads(shelf: CatalogShelf, entries: Seq<(String, SeenDispatch)>) -> Result<
    Map<Seq<char>, LoadProfile>,
    RuntimeHostError,
>
    decreases entries.len(),
{
    if entries.len() == 0 {
        Ok(Map::empty())
    } else {
        match running_loads(shelf, entries.drop_last()) {
            Err(error) => Err(error),
            Ok(loads) => {
                let dispatch = entries.last().1@;
                if dispatch.lifecycle != DispatchLifecycle::Admitted {
                    Ok(loads)
                } else {
                    match running_intent(shelf, dispatch) {
                        Err(error) => Err(error),
                        Ok(intent) => if loads.contains_key(intent.instance_id) {
                            Err(
                                policy_fatal(
                                    "policy_instance_dispatch_conflict",
                                    "read_active_performance_workloads",
                                ),
                            )
                        } else {
                            Ok(loads.insert(intent.instance_id, intent.load_profile))
                        },
                    }
                }
            },
        }
    }
}

proof fn lemma_loads_stop_at_error(
    shelf: CatalogShelf,
    entries: Seq<(String, SeenDispatch)>,
    count: int,
)
    requires
        0 <= count <= entries.len(),
        running_loads(shelf, entries.take(count)) is Err,
    ensures
        running_loads(shelf, entries) == running_loads(shelf, entries.take(count)),
    decreases entries.len(),
{
    if count == entries.len() {
        assert(entries.take(count) =~= entries);
    } else {
        assert(entries.drop_last().take(count) =~= entries.take(count));
        lemma_loads_stop_at_error(shelf, entries.drop_last(), count);
    }
}

/// A list of workloads with each instance of a map once, in order.
pub open spec fn lists_loads(
    workloads: Seq<PerformanceControlWorkload>,
    loads: Map<Seq<char>, LoadProfile>,
) -> bool {
    &&& forall|i: int, j: int|
        0 <= i < j < workloads.len() ==> text_less(
            (#[trigger] workloads[i]).instance_id@,
            (#[trigger] workloads[j]).instance_id@,
        )
    &&& forall|i: int|
        0 <= i < workloads.len() ==> loads.contains_key((#[trigger] workloads[i]).instance_id@)
            && loads[workloads[i].instance_id@] == workloads[i].load_profile
    &&& forall|id: Seq<char>| #[trigger]
        loads.contains_key(id) ==> exists|i: int|
            0 <= i < workloads.len() && (#[trigger] workloads[i]).instance_id@ == id
}

impl PolicyHost {
    /// The record of an execution that was reported before.
    pub fn replay_execution(&self, decision_id: &String, input: &PolicyExecutionInput) -> (result:
        RuntimeHostResult<Option<PolicyExecutionEventData>>)
        requires
            self.wf(),
        ensures
            ({
                let seen = self.dispatches@.seen;
                let recorded = seen[decision_id@].execution;
                if !seen.contains_key(decision_id@) {
                    result matches Err(error) && error == policy_request(
                        "policy_dispatch_unknown",
                        "replay_policy_execution_outcome",
                    )
                } else if recorded is None {
                    result matches Ok(answer) && answer is None
                } else if !outcome_matches((recorded->0).outcome, input@) {
                    result matches Err(error) && error == policy_fatal(
                        "policy_execution_identity_conflict",
                        "replay_policy_execution_outcome",
                    )
                } else {
                    result matches Ok(Some(data)) && data@ == recorded->0
                }
            }),
    {
        let dispatch = match self.dispatches.seen.get(decision_id) {
            Some(dispatch) => dispatch,
            None => {
                return Err(request("policy_dispatch_unknown", "replay_policy_execution_outcome"));
            },
        };
        match &dispatch.execution {
            None => Ok(None),
            Some(existing) => {
                if !execution_input_matches(&existing.outcome, input) {
                    return Err(
                        fatal(
                            "policy_execution_identity_conflict",
                            "replay_policy_execution_outcome",
                        ),
                    );
                }
                Ok(Some(existing.copy()))
            },
        }
    }

    /// What preparing the record of an execution gives.
    pub open spec fn prepared(
        &self,
        decision_id: Seq<char>,
        observed_at_unix_ms: u64,
        input: InputView,
        perf_context: ContextView,
    ) -> Result<ExecutionView, RuntimeHostError> {
        let dispatch = self.dispatches@.seen[decision_id];
        if !self.dispatches@.seen.contains_key(decision_id) {
            Err(preparation_error("policy_dispatch_unknown"))
        } else if dispatch.execution is Some {
            if !outcome_matches((dispatch.execution->0).outcome, input) {
                Err(
                    policy_fatal(
                        "policy_execution_identity_conflict",
                        "prepare_policy_execution_outcome",
                    ),
                )
            } else {
                Ok(dispatch.execution->0)
            }
        } else if dispatch.lifecycle != DispatchLifecycle::Admitted {
            Err(preparation_error("policy_dispatch_not_admitted"))
        } else {
            match running_intent(self.shelf, dispatch) {
                Err(error) => Err(error),
                Ok(intent) => self.dispatches@.control.execution(
                    self.shelf.lookup(dispatch.data.catalog_hash)->Ok_0.compiled,
                    intent,
                    dispatch.admission->0,
                    observed_at_unix_ms,
                    input,
                    perf_context,
                ),
            }
        }
    }

    /// The record of an execution: the one that exists, or a new one.
    pub fn prepare_execution(
        &self,
        decision_id: &String,
        observed_at_unix_ms: u64,
        input: &PolicyExecutionInput,
        perf_context: &PerformanceContext,
    ) -> (result: RuntimeHostResult<PolicyExecutionPreparation>)
        requires
            self.wf(),
        ensures
            match self.prepared(decision_id@, observed_at_unix_ms, input@, perf_context@) {
                Err(refusal) => result matches Err(error) && error == refusal,
                Ok(expected) => if self.dispatches@.seen[decision_id@].execution is Some {
                    result matches Ok(PolicyExecutionPreparation::Replay(data)) && data@ == expected
                } else {
                    result matches Ok(PolicyExecutionPreparation::New(data)) && data@ == expected
                },
            },
    {
        let dispatch = match self.dispatches.seen.get(decision_id) {
            Some(dispatch) => dispatch,
            None => {
                return Err(request("policy_dispatch_unknown", "prepare_policy_execution_outcome"));
            },
        };
        assert(self.dispatches@.seen.contains_key(decision_id@));
        if let Some(existing) = &dispatch.execution {
            if !execution_input_matches(&existing.outcome, input) {
                return Err(
                    fatal("policy_execution_identity_conflict", "prepare_policy_execution_outcome"),
                );
            }
            return Ok(PolicyExecutionPreparation::Replay(existing.copy()));
        }
        if dispatch.lifecycle != DispatchLifecycle::Admitted {
            return Err(request("policy_dispatch_not_admitted", "prepare_policy_execution_outcome"));
        }
        let admission = match &dispatch.admission {
            Some(admission) => admission,
            None => {
                return Err(
                    fatal("policy_dispatch_admission_missing", "prepare_policy_execution_outcome"),
                );
            },
        };
        let catalog = self.shelf.load_generation(dispatch.data.catalog_hash.as_str())?;
        let intent = control_intent(&dispatch.data, &catalog.compiled, admission)?;
        let data = self.dispatches.control.preview_execution(
            &catalog.compiled,
            &intent,
            admission,
            observed_at_unix_ms,
            input,
            perf_context,
        )?;
        Ok(PolicyExecutionPreparation::New(data))
    }

    /// The dispatches after an execution was counted.
    pub open spec fn with_recorded(&self, data: ExecutionView) -> Result<
        ReplayView,
        RuntimeHostError,
    > {
        let operation = "commit_policy_execution_outcome";
        let replay = self.dispatches@;
        let dispatch = replay.seen[data.decision_id];
        if !replay.seen.contains_key(data.decision_id) {
            Err(policy_fatal("policy_dispatch_unknown", operation))
        } else if dispatch.execution is Some {
            Err(policy_fatal("policy_execution_duplicate", operation))
        } else if dispatch.admission is None {
            Err(policy_fatal("policy_dispatch_admission_missing", operation))
        } else {
            match running_intent(self.shelf, dispatch) {
                Err(error) => Err(error),
                Ok(intent) => match replay.control.replayed_execution(
                    self.shelf.lookup(dispatch.data.catalog_hash)->Ok_0.compiled,
                    intent,
                    dispatch.admission->0,
                    data,
                ) {
                    Err(error) => Err(error),
                    Ok(expected) => if expected != data {
                        Err(
                            policy_fatal(
                                "policy_execution_record_mismatch",
                                "commit_policy_outcome",
                            ),
                        )
                    } else {
                        Ok(
                            ReplayView {
                                seen: replay.seen.insert(
                                    data.decision_id,
                                    SeenView { execution: Some(data), ..dispatch },
                                ),
                                control: replay.control.after_execution(
                                    intent,
                                    dispatch.admission->0,
                                    data,
                                ),
                                ..replay
                            },
                        )
                    },
                },
            }
        }
    }

    /// Counts an execution. It is counted once.
    pub fn commit_execution(&mut self, data: &PolicyExecutionEventData) -> (result:
        RuntimeHostResult<()>)
        requires
            old(self).wf(),
        ensures
            final(self).wf(),
            final(self).shelf == old(self).shelf,
            final(self).active == old(self).active,
            final(self).cadence == old(self).cadence,
            final(self).pinned == old(self).pinned,
            final(self).planner == old(self).planner,
            match old(self).with_recorded(data@) {
                Ok(after) => result == Ok::<(), RuntimeHostError>(()) && final(self).dispatches@
                    == after,
                Err(error) => result == Err::<(), _>(error) && final(self).dispatches@ == old(
                    self,
                ).dispatches@,
            },
    {
        let (position, found) = self.dispatches.seen.find(&data.decision_id);
        if !found {
            return Err(fatal("policy_dispatch_unknown", "commit_policy_execution_outcome"));
        }
        let dispatch = &self.dispatches.seen.entries[position].1;
        assert(self.dispatches@.seen.contains_key(data.decision_id@));
        if dispatch.execution.is_some() {
            return Err(fatal("policy_execution_duplicate", "commit_policy_execution_outcome"));
        }
        let admission = match &dispatch.admission {
            Some(admission) => admission,
            None => {
                return Err(
                    fatal("policy_dispatch_admission_missing", "commit_policy_execution_outcome"),
                );
            },
        };
        let catalog = self.shelf.load_generation(dispatch.data.catalog_hash.as_str())?;
        let intent = control_intent(&dispatch.data, &catalog.compiled, admission)?;
        let counted = self.dispatches.control.commit_execution(
            &catalog.compiled,
            &intent,
            admission,
            data,
        );
        if let Err(error) = counted {
            return Err(error);
        }
        match self.dispatches.seen.remove(&data.decision_id) {
            Some(dispatch) => {
                let mut dispatch = dispatch;
                dispatch.execution = Some(data.copy());
                self.dispatches.seen.insert(data.decision_id.clone(), dispatch);
                proof {
                    assert(self.dispatches@.seen =~= old(self).dispatches@.seen.insert(
                        data.decision_id@,
                        dispatch@,
                    ));
                }
                Ok(())
            },
            None => Err(fatal("policy_dispatch_unknown", "commit_policy_execution_outcome")),
        }
    }

    /// What the dispatches that run ask of their instances.
    pub fn active_performance_workloads(&self) -> (result: RuntimeHostResult<
        Vec<PerformanceControlWorkload>,
    >)
        requires
            self.wf(),
        ensures
            match running_loads(self.shelf, self.dispatches.seen.entries@) {
                Err(refusal) => result matches Err(error) && error == refusal,
                Ok(loads) => result matches Ok(workloads) && lists_loads(workloads@, loads),
            },
    {
        let ghost entries = self.dispatches.seen.entries@;
        let mut loads: OrderedMap<String, LoadProfile> = OrderedMap::new();
        let mut index: usize = 0;
        assert(entries.take(0) =~= Seq::empty());
        while index < self.dispatches.seen.entries.len()
            invariant
                index <= self.dispatches.seen.entries.len(),
                self.wf(),
                entries == self.dispatches.seen.entries@,
                loads.wf(),
                running_loads(self.shelf, entries.take(index as int)) == Ok::<
                    Map<Seq<char>, LoadProfile>,
                    RuntimeHostError,
                >(loads@),
            decreases self.dispatches.seen.entries.len() - index,
        {
            let dispatch = &self.dispatches.seen.entries[index].1;
            proof {
                let taken = entries.take(index + 1);
                assert(taken.drop_last() =~= entries.take(index as int));
                lemma_entry(entries, index as int);
                assert(self.dispatches@.seen.contains_key(entries[index as int].0@));
                if running_loads(self.shelf, taken) is Err {
                    lemma_loads_stop_at_error(self.shelf, entries, index + 1);
                }
            }
            if dispatch.lifecycle == DispatchLifecycle::Admitted {
                let admission = match &dispatch.admission {
                    Some(admission) => admission,
                    None => {
                        return Err(
                            fatal(
                                "policy_dispatch_admission_missing",
                                "read_active_performance_workloads",
                            ),
                        );
                    },
                };
                let catalog = self.shelf.load_generation(dispatch.data.catalog_hash.as_str())?;
                let intent = control_intent(&dispatch.data, &catalog.compiled, admission)?;
                if loads.contains(&intent.instance_id) {
                    return Err(
                        fatal(
                            "policy_instance_dispatch_conflict",
                            "read_active_performance_workloads",
                        ),
                    );
                }
                loads.insert(intent.instance_id, intent.load_profile);
            }
            index += 1;
        }
        assert(entries.take(entries.len() as int) =~= entries);
        let mut workloads: Vec<PerformanceControlWorkload> = Vec::new();
        let mut index: usize = 0;
        while index < loads.entries.len()
            invariant
                index <= loads.entries.len(),
                loads.wf(),
                workloads@.len() == index,
                forall|i: int|
                    0 <= i < index ==> (#[trigger] workloads@[i]).instance_id@
                        == loads.entries@[i].0@ && workloads@[i].load_profile
                        == loads.entries@[i].1,
            decreases loads.entries.len() - index,
        {
            workloads.push(
                PerformanceControlWorkload {
                    instance_id: loads.entries[index].0.clone(),
                    load_profile: loads.entries[index].1,
                },
            );
            index += 1;
        }
        proof {
            let keys = loads.keys();
            assert forall|i: int, j: int| 0 <= i < j < workloads@.len() implies text_less(
                (#[trigger] workloads@[i]).instance_id@,
                (#[trigger] workloads@[j]).instance_id@,
            ) by {
                assert(keys[i] == workloads@[i].instance_id@);
                assert(keys[j] == workloads@[j].instance_id@);
            }
            assert forall|i: int| 0 <= i < workloads@.len() implies loads@.contains_key(
                (#[trigger] workloads@[i]).instance_id@,
            ) && loads@[workloads@[i].instance_id@] == workloads@[i].load_profile by {
                lemma_entry(loads.entries@, i);
            }
            assert forall|id: Seq<char>| #[trigger]
                loads@.contains_key(id) implies exists|i: int|
                0 <= i < workloads@.len() && (#[trigger] workloads@[i]).instance_id@ == id by {
                let i = keys.index_of(id);
                assert(keys[i] == id);
                assert(workloads@[i].instance_id@ == id);
            }
        }
        Ok(workloads)
    }
}

/// A prepared execution commits: what was prepared for a dispatch that runs is
/// counted if nothing happened in between.
pub proof fn law_prepared_execution_commits(
    host: PolicyHost,
    decision_id: Seq<char>,
    observed_at_unix_ms: u64,
    input: InputView,
    perf_context: ContextView,
)
    requires
        host.wf(),
        host.dispatches@.seen.contains_key(decision_id),
        host.dispatches@.seen[decision_id].execution is None,
    ensures
        host.prepared(decision_id, observed_at_unix_ms, input, perf_context) matches Ok(data)
            ==> host.with_recorded(data) is Ok,
{
    let dispatch = host.dispatches@.seen[decision_id];
    if let Ok(intent) = running_intent(host.shelf, dispatch) {
        crate::policy::outcome::law_previewed_execution_commits(
            host.dispatches@.control,
            host.shelf.lookup(dispatch.data.catalog_hash)->Ok_0.compiled,
            intent,
            dispatch.admission->0,
            observed_at_unix_ms,
            input,
            perf_context,
        );
    }
}

/// An execution that was counted is answered from its record.
pub proof fn law_counted_execution_is_replayed(
    host: PolicyHost,
    after: PolicyHost,
    data: ExecutionView,
    observed_at_unix_ms: u64,
    perf_context: ContextView,
)
    requires
        host.with_recorded(data) is Ok,
        after.dispatches@ == host.with_recorded(data)->Ok_0,
    ensures
        after.prepared(
            data.decision_id,
            observed_at_unix_ms,
            crate::policy::outcome::reported_input(data.outcome),
            perf_context,
        ) == Ok::<ExecutionView, RuntimeHostError>(data),
        after.with_recorded(data) == Err::<ReplayView, RuntimeHostError>(
            policy_fatal("policy_execution_duplicate", "commit_policy_execution_outcome"),
        ),
{
}

/// An execution that was recorded is given back to the report that it was made
/// from and refused to any other; a decision that is unknown, or that does not
/// run, has none.
pub proof fn law_recorded_execution_is_given_back(
    host: PolicyHost,
    decision_id: Seq<char>,
    observed_at_unix_ms: u64,
    input: InputView,
    perf_context: ContextView,
)
    ensures
        ({
            let seen = host.dispatches@.seen;
            let dispatch = seen[decision_id];
            let result = host.prepared(decision_id, observed_at_unix_ms, input, perf_context);
            &&& !seen.contains_key(decision_id) ==> (result matches Err(error) && error.code
                == "policy_dispatch_unknown" && !error.fatal)
            &&& seen.contains_key(decision_id) && dispatch.execution is None && dispatch.lifecycle
                != DispatchLifecycle::Admitted ==> (result matches Err(error) && error.code
                == "policy_dispatch_not_admitted" && !error.fatal)
            &&& seen.contains_key(decision_id) && dispatch.execution is Some ==> {
                let outcome = (dispatch.execution->0).outcome;
                let own = match input {
                    InputView::Succeeded => outcome is Succeeded
                        || outcome->failure.reported_success,
                    InputView::Failed { error_code, class } => outcome is Failed
                        && !outcome->failure.reported_success && outcome->failure.error_code
                        == error_code && outcome->failure.original_class == class,
                };
                &&& own ==> result == Ok::<_, RuntimeHostError>(dispatch.execution->0)
                &&& !own ==> (result matches Err(error) && error.code
                    == "policy_execution_identity_conflict" && error.fatal)
            }
        }),
{
}

/// Recording an execution counts it for its own decision only, and never
/// twice.
pub proof fn law_execution_is_recorded_once(host: PolicyHost, data: ExecutionView, other: Seq<char>)
    requires
        host.with_recorded(data) is Ok,
        other != data.decision_id,
    ensures
        ({
            let before = host.dispatches@;
            let after = host.with_recorded(data)->Ok_0;
            &&& before.seen.contains_key(data.decision_id)
            &&& before.seen[data.decision_id].execution is None
            &&& before.seen[data.decision_id].admission is Some
            &&& after.seen[data.decision_id].execution == Some(data)
            &&& after.seen[data.decision_id].lifecycle == before.seen[data.decision_id].lifecycle
            &&& after.seen.contains_key(other) == before.seen.contains_key(other)
            &&& after.seen[other] == before.seen[other]
            &&& after.order == before.order
        }),
{
}

/// The workloads of the control are those of the dispatches that run: one more
/// dispatch adds its instance with the load of its task where it runs, nothing
/// where it does not, and no two run on one instance.
pub proof fn law_running_dispatches_are_the_load(
    shelf: CatalogShelf,
    entries: Seq<(String, SeenDispatch)>,
    entry: (String, SeenDispatch),
    instance_id: Seq<char>,
)
    requires
        running_loads(shelf, entries.push(entry)) is Ok,
    ensures
        running_loads(shelf, entries) is Ok,
        ({
            let before = running_loads(shelf, entries)->Ok_0;
            let after = running_loads(shelf, entries.push(entry))->Ok_0;
            let runs = entry.1.lifecycle == DispatchLifecycle::Admitted;
            let own = entry.1.data.instance_id@;
            &&& !runs ==> after == before
            &&& runs ==> !before.contains_key(own) && after.contains_key(own)
            &&& instance_id != own ==> after.contains_key(instance_id) == before.contains_key(
                instance_id,
            ) && after[instance_id] == before[instance_id]
        }),
{
    assert(entries.push(entry).drop_last() =~= entries);
}

} // verus!
