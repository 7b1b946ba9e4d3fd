//! Detection planning: counting planning signals and proposing the next ones.

use vstd::prelude::*;
use vstd::string::StringExecFns;

use crate::digest::slices;
use crate::error::{RuntimeHostError, RuntimeHostResult};
use crate::ordered_map::OrderedMap;
use crate::policy::activity::{
    active_activity_window, law_first_open_window_counts, open_day, open_window, window_closed,
    window_name,
};
use crate::policy::catalog::{
    fatal, policy_fatal, policy_request, request, ActivityProfile, DispatchIntent, IntentView,
    PolicyCatalog,
};
use crate::policy::control::{pair_key, PairId};
use crate::policy::detection::{
    is_detection, law_cache_stays_bounded, law_reservation_is_given_while_it_fits, no_usage,
    reservation, DetectionQuotaState, DetectionQuotaUsage, PolicyPlanningSignalEventData,
    PolicyPlanningSignalKind, QuotaView, SignalView,
};
use crate::policy::evaluation::{
    matching_activity_profile, profile_for, DetectionSuggestion, EvaluationFacts, InstanceSnapshot,
    PolicyDecision, PolicyEvaluation,
};
use crate::policy::generation::CatalogShelf;
use crate::policy::signals::{
    detection_signal_id, scope_identity, scope_name, signal_error, signal_name,
    validate_planning_signal, PlanningProjections, ProjectionsView,
};
use crate::procedure_manifest::intent_views;
use crate::search::{first_position, lemma_first_position, lemma_no_position};
use crate::text::same_text;

verus! {

/// The windows in use and what is stored of the planning signals.
pub struct DetectionPlanner {
    pub quota: DetectionQuotaState,
    pub projections: PlanningProjections,
}

/// The value of a planner.
pub struct PlannerView {
    pub quota: QuotaView,
    pub projections: ProjectionsView,
}

impl View for DetectionPlanner {
    type V = PlannerView;

    open spec fn view(&self) -> PlannerView {
        PlannerView { quota: self.quota@, projections: self.projections@ }
    }
}

/// The error of a signal that cannot be counted.
pub open spec fn commit_error(code: &'static str) -> RuntimeHostError {
    policy_fatal(code, "commit_policy_planning_signal")
}

/// The window that a signal is about.
pub open spec fn signal_window(data: SignalView) -> PairId {
    (data.instance_id, data.detection_budget->0.window_id)
}

/// What a signal says its window has used.
pub open spec fn claimed_usage(data: SignalView) -> DetectionQuotaUsage {
    DetectionQuotaUsage {
        dispatch_used: data.detection_budget->0.dispatch_used,
        runtime_reserved_ms: data.detection_budget->0.runtime_reserved_ms,
    }
}

impl PlannerView {
    /// The stored usage of a signal's window.
    pub open spec fn stored_usage(self, data: SignalView) -> Option<(u64, DetectionQuotaUsage)> {
        if data.detection_budget is Some && self.projections.quotas.contains_key(
            signal_window(data),
        ) {
            Some(self.projections.quotas[signal_window(data)])
        } else {
            None
        }
    }

    /// The error of a signal that contradicts what is stored.
    pub open spec fn conflict(self, shelf: CatalogShelf, sequence: u64, data: SignalView) -> Option<
        RuntimeHostError,
    > {
        let known = self.projections.signals.contains_key(data.signal_id);
        let stored = self.stored_usage(data);
        if signal_error(shelf, data) is Some {
            signal_error(shelf, data)
        } else if data.detection_budget is Some && !is_detection(data.kind) {
            Some(
                policy_fatal(
                    "policy_detection_budget_unexpected",
                    "commit_policy_detection_budget",
                ),
            )
        } else if known && self.projections.signals[data.signal_id] != (sequence, data) {
            Some(commit_error("policy_planning_signal_identity_conflict"))
        } else if stored is Some && ((stored->0).0 > sequence || ((stored->0).0 == sequence && (!known
            || (stored->0).1 != claimed_usage(data)))) {
            Some(commit_error("policy_detection_quota_projection_conflict"))
        } else {
            None
        }
    }

    /// The windows in use and the result after a signal was counted. A stored
    /// usage comes first; one that was stored with this very signal is final.
    pub open spec fn counted(self, sequence: u64, data: SignalView) -> (
        QuotaView,
        Result<(), RuntimeHostError>,
    ) {
        match self.stored_usage(data) {
            None => self.quota.after_signal(data),
            Some(stored) => {
                let quota = self.quota.cached(signal_window(data), stored.1);
                if stored.0 == sequence {
                    (quota, Ok(()))
                } else {
                    quota.after_signal(data)
                }
            },
        }
    }

    /// What is stored after a signal was counted.
    pub open spec fn stored(self, sequence: u64, data: SignalView, quota: QuotaView) -> (
        ProjectionsView,
        Result<(), RuntimeHostError>,
    ) {
        let with_signal = self.projections.with_signal(sequence, data).0;
        if data.detection_budget is None {
            with_signal.with_checkpoint(sequence)
        } else {
            let (with_quota, kept) = with_signal.with_quota(
                sequence,
                signal_window(data),
                quota.usage(signal_window(data)),
            );
            if kept is Err {
                (with_quota, kept)
            } else {
                with_quota.with_checkpoint(sequence)
            }
        }
    }

    /// The state and the result after a signal was committed.
    pub open spec fn committed(self, shelf: CatalogShelf, sequence: u64, data: SignalView) -> (
        PlannerView,
        Result<(), RuntimeHostError>,
    ) {
        let (quota, counted) = self.counted(sequence, data);
        let (projections, stored) = self.stored(sequence, data, quota);
        if self.conflict(shelf, sequence, data) is Some {
            (self, Err(self.conflict(shelf, sequence, data)->0))
        } else if counted is Err {
            (self, counted)
        } else if stored is Err {
            (PlannerView { quota: self.quota, projections }, stored)
        } else {
            (PlannerView { quota, projections }, Ok(()))
        }
    }

    /// The state after a row of events was committed, and the sequence of the
    /// last one.
    pub open spec fn replayed(
        self,
        shelf: CatalogShelf,
        after_sequence: u64,
        events: Seq<(u64, Option<SignalView>)>,
    ) -> (PlannerView, Result<u64, RuntimeHostError>)
        decreases events.len(),
    {
        if events.len() == 0 {
            (self, Ok(after_sequence))
        } else {
            let earlier = self.replayed(shelf, after_sequence, events.drop_last());
            if earlier.1 is Err {
                earlier
            } else {
                match events.last().1 {
                    None => (
                        earlier.0,
                        Err(
                            policy_fatal(
                                "policy_recovery_query_mismatch",
                                "recover_policy_planning_signals",
                            ),
                        ),
                    ),
                    Some(data) => match earlier.0.committed(shelf, events.last().0, data) {
                        (after, Ok(_)) => (after, Ok(events.last().0)),
                        (after, Err(error)) => (after, Err(error)),
                    },
                }
            }
        }
    }

    /// The sequence through which signals were committed.
    pub open spec fn committed_through(self) -> u64 {
        match self.projections.checkpoint {
            Some(sequence) => sequence,
            None => 0,
        }
    }

    /// The state once all signals up to the latest event are committed.
    pub open spec fn checkpointed(self, latest: u64, sequence: u64) -> (
        PlannerView,
        Result<(), RuntimeHostError>,
    ) {
        if sequence < latest {
            let (projections, kept) = self.projections.with_checkpoint(latest);
            (PlannerView { quota: self.quota, projections }, kept)
        } else {
            (self, Ok(()))
        }
    }

    /// The state after a restart.
    pub open spec fn recovered(
        self,
        shelf: CatalogShelf,
        latest: u64,
        events: Seq<(u64, Option<SignalView>)>,
    ) -> (PlannerView, Result<(), RuntimeHostError>) {
        let start = self.committed_through();
        if start > latest {
            (
                self,
                Err(
                    policy_fatal(
                        "policy_planning_checkpoint_ahead",
                        "recover_policy_planning_signals",
                    ),
                ),
            )
        } else if start == latest {
            (self, Ok(()))
        } else {
            match self.replayed(shelf, start, events) {
                (after, Err(error)) => (after, Err(error)),
                (after, Ok(sequence)) => after.checkpointed(latest, sequence),
            }
        }
    }
}

proof fn lemma_replay_stops_at_error(
    planner: PlannerView,
    shelf: CatalogShelf,
    after_sequence: u64,
    events: Seq<(u64, Option<SignalView>)>,
    count: int,
)
    requires
        0 <= count <= events.len(),
        planner.replayed(shelf, after_sequence, events.take(count)).1 is Err,
    ensures
        planner.replayed(shelf, after_sequence, events) == planner.replayed(
            shelf,
            after_sequence,
            events.take(count),
        ),
    decreases events.len(),
{
    if count == events.len() {
        assert(events.take(count) =~= events);
    } else {
        assert(events.drop_last().take(count) =~= events.take(count));
        lemma_replay_stops_at_error(planner, shelf, after_sequence, events.drop_last(), count);
    }
}

/// A signal of the ledger, if the event is one.
pub open spec fn signal_events(
    events: Seq<(u64, Option<PolicyPlanningSignalEventData>)>,
) -> Seq<(u64, Option<SignalView>)> {
    events.map_values(
        |event: (u64, Option<PolicyPlanningSignalEventData>)|
            (
                event.0,
                match event.1 {
                    Some(data) => Some(data@),
                    None => None,
                },
            ),
    )
}

impl DetectionPlanner {
    pub open spec fn wf(&self) -> bool {
        self.quota.wf() && self.projections.wf()
    }

    pub fn new(max_windows: usize, projections: PlanningProjections) -> (planner: Self)
        requires
            projections.wf(),
        ensures
            planner.wf(),
            planner@.quota == (QuotaView {
                windows: Map::empty(),
                recency: Seq::empty(),
                max_windows: max_windows as int,
            }),
            planner@.projections == projections@,
    {
        DetectionPlanner { quota: DetectionQuotaState::new(max_windows), projections }
    }

    /// Counts a signal and stores it. Committing it again is harmless; one
    /// that contradicts what is stored is refused before anything changes.
    pub fn commit_planning_signal(
        &mut self,
        shelf: &CatalogShelf,
        sequence: u64,
        data: &PolicyPlanningSignalEventData,
    ) -> (result: RuntimeHostResult<()>)
        requires
            old(self).wf(),
            shelf.wf(),
        ensures
            final(self).wf(),
            (final(self)@, result) == old(self)@.committed(*shelf, sequence, data@),
    {
        validate_planning_signal(shelf, data)?;
        let detection = data.kind == PolicyPlanningSignalKind::DetectionReserved || data.kind
            == PolicyPlanningSignalKind::DetectionQuotaExhausted;
        if data.detection_budget.is_some() && !detection {
            return Err(
                fatal("policy_detection_budget_unexpected", "commit_policy_detection_budget"),
            );
        }
        let known = match self.projections.load_planning_signal(&data.signal_id) {
            Some(existing) => {
                if existing.0 != sequence || !existing.1.same(data) {
                    return Err(
                        fatal(
                            "policy_planning_signal_identity_conflict",
                            "commit_policy_planning_signal",
                        ),
                    );
                }
                true
            },
            None => false,
        };
        let mut quota = self.quota.copy();
        let mut stored_with_signal = false;
        if let Some(budget) = &data.detection_budget {
            let key = pair_key(&data.instance_id, &budget.window_id);
            if let Some((stored_at, usage)) = self.projections.load_detection_quota(&key) {
                if stored_at > sequence || (stored_at == sequence && (!known || usage.dispatch_used
                    != budget.dispatch_used || usage.runtime_reserved_ms
                    != budget.runtime_reserved_ms)) {
                    return Err(
                        fatal(
                            "policy_detection_quota_projection_conflict",
                            "commit_policy_planning_signal",
                        ),
                    );
                }
                quota.cache_usage(key, usage)?;
                stored_with_signal = stored_at == sequence;
            }
        }
        if !stored_with_signal {
            quota.commit_signal(data)?;
        }
        self.projections.persist_planning_signal(sequence, data)?;
        if let Some(budget) = &data.detection_budget {
            let key = pair_key(&data.instance_id, &budget.window_id);
            let usage: DetectionQuotaUsage = match quota.windows.get(&key) {
                Some(usage) => *usage,
                None => DetectionQuotaUsage { dispatch_used: 0, runtime_reserved_ms: 0 },
            };
            self.projections.persist_detection_quota(sequence, key, usage)?;
        }
        self.projections.persist_planning_checkpoint(sequence)?;
        self.quota = quota;
        Ok(())
    }

    /// After which sequence the signals have to be read again, up to the latest
    /// event; nothing where all of them were committed.
    pub fn recovery_start(&self, latest: u64) -> (result: RuntimeHostResult<Option<u64>>)
        ensures
            result == if self@.committed_through() > latest {
                Err::<Option<u64>, _>(
                    policy_fatal(
                        "policy_planning_checkpoint_ahead",
                        "recover_policy_planning_signals",
                    ),
                )
            } else if self@.committed_through() == latest {
                Ok(None)
            } else {
                Ok(Some(self@.committed_through()))
            },
    {
        let start: u64 = match self.projections.checkpoint {
            Some(sequence) => sequence,
            None => 0,
        };
        if start > latest {
            return Err(
                fatal("policy_planning_checkpoint_ahead", "recover_policy_planning_signals"),
            );
        }
        if start == latest {
            Ok(None)
        } else {
            Ok(Some(start))
        }
    }

    /// Commits a page of signals and gives the sequence of the last of them.
    /// What was committed before an error stays.
    pub fn commit_page(
        &mut self,
        shelf: &CatalogShelf,
        after_sequence: u64,
        page: &Vec<(u64, Option<PolicyPlanningSignalEventData>)>,
    ) -> (result: RuntimeHostResult<u64>)
        requires
            old(self).wf(),
            shelf.wf(),
        ensures
            final(self).wf(),
            (final(self)@, result) == old(self)@.replayed(
                *shelf,
                after_sequence,
                signal_events(page@),
            ),
    {
        let ghost all = signal_events(page@);
        let ghost before = self@;
        let mut reached: u64 = after_sequence;
        let mut index: usize = 0;
        assert(all.take(0) =~= Seq::empty());
        while index < page.len()
            invariant
                index <= page.len(),
                self.wf(),
                shelf.wf(),
                all == signal_events(page@),
                before == old(self)@,
                before.replayed(*shelf, after_sequence, all.take(index as int)) == (
                    self@,
                    Ok::<u64, RuntimeHostError>(reached),
                ),
            decreases page.len() - index,
        {
            let ghost taken = all.take(index + 1);
            proof {
                assert(taken.drop_last() =~= all.take(index as int));
                assert(taken.last() == all[index as int]);
            }
            let sequence: u64 = page[index].0;
            match &page[index].1 {
                None => {
                    proof {
                        lemma_replay_stops_at_error(before, *shelf, after_sequence, all, index + 1);
                    }
                    return Err(
                        fatal("policy_recovery_query_mismatch", "recover_policy_planning_signals"),
                    );
                },
                Some(data) => {
                    if let Err(error) = self.commit_planning_signal(shelf, sequence, data) {
                        proof {
                            lemma_replay_stops_at_error(
                                before,
                                *shelf,
                                after_sequence,
                                all,
                                index + 1,
                            );
                        }
                        return Err(error);
                    }
                },
            }
            reached = sequence;
            index += 1;
        }
        assert(all.take(all.len() as int) =~= all);
        Ok(reached)
    }

    /// The signals are committed up to a sequence and there are no more: the
    /// latest event is the checkpoint.
    pub fn finish_recovery(&mut self, latest: u64, after_sequence: u64) -> (result:
        RuntimeHostResult<()>)
        requires
            old(self).wf(),
        ensures
            final(self).wf(),
            (final(self)@, result) == old(self)@.checkpointed(latest, after_sequence),
    {
        if after_sequence < latest {
            return self.projections.persist_planning_checkpoint(latest);
        }
        Ok(())
    }

    /// Commits the signals after the checkpoint, up to the latest event.
    pub fn recover_planning_signals(
        &mut self,
        shelf: &CatalogShelf,
        latest: u64,
        events: &Vec<(u64, Option<PolicyPlanningSignalEventData>)>,
    ) -> (result: RuntimeHostResult<()>)
        requires
            old(self).wf(),
            shelf.wf(),
        ensures
            final(self).wf(),
            (final(self)@, result) == old(self)@.recovered(*shelf, latest, signal_events(events@)),
    {
        let start = match self.recovery_start(latest)? {
            Some(start) => start,
            None => {
                return Ok(());
            },
        };
        let reached = self.commit_page(shelf, start, events)?;
        self.finish_recovery(latest, reached)
    }
}

/// Committing two pages of signals one after the other is committing them as
/// one page.
pub proof fn law_pages_are_committed_as_one(
    planner: PlannerView,
    shelf: CatalogShelf,
    after_sequence: u64,
    first: Seq<(u64, Option<SignalView>)>,
    second: Seq<(u64, Option<SignalView>)>,
)
    ensures
        planner.replayed(shelf, after_sequence, first + second) == match planner.replayed(
            shelf,
            after_sequence,
            first,
        ) {
            (between, Ok(reached)) => between.replayed(shelf, reached, second),
            (between, Err(error)) => (between, Err(error)),
        },
    decreases second.len(),
{
    if second.len() == 0 {
        assert(first + second =~= first);
    } else {
        law_pages_are_committed_as_one(planner, shelf, after_sequence, first, second.drop_last());
        assert((first + second).drop_last() =~= first + second.drop_last());
        assert((first + second).last() == second.last());
    }
}

/// A signal that was committed may be committed again: nothing changes in what
/// is stored.
pub proof fn law_commit_is_repeatable(
    planner: PlannerView,
    shelf: CatalogShelf,
    sequence: u64,
    data: SignalView,
)
    requires
        planner.quota.wf(),
        planner.quota.max_windows > 0,
        planner.committed(shelf, sequence, data).1 is Ok,
    ensures
        ({
            let once = planner.committed(shelf, sequence, data).0;
            let twice = once.committed(shelf, sequence, data);
            &&& once.projections.signals[data.signal_id] == (sequence, data)
            &&& twice.1 is Ok
            &&& twice.0.projections == once.projections
        }),
{
    let once = planner.committed(shelf, sequence, data).0;
    if data.detection_budget is Some {
        let key = signal_window(data);
        if planner.stored_usage(data) is Some {
            law_cache_stays_bounded(
                planner.quota,
                key,
                (planner.stored_usage(data)->0).1,
            );
        }
        law_cache_stays_bounded(
            planner.quota,
            key,
            claimed_usage(data),
        );
        let staged = match planner.stored_usage(data) {
            Some(stored) => planner.quota.cached(key, stored.1),
            None => planner.quota,
        };
        law_cache_stays_bounded(staged, key, claimed_usage(data));
        law_cache_stays_bounded(
            staged.touched_if_known(key),
            key,
            claimed_usage(data),
        );
        law_cache_stays_bounded(
            once.quota,
            key,
            claimed_usage(data),
        );
        assert(once.projections.quotas[key].1 == claimed_usage(data));
        assert(once.projections.quotas[key].0 == sequence);
        let twice = once.committed(shelf, sequence, data);
        assert(twice.0.projections.signals =~= once.projections.signals);
    }
}

/// What is known when detection is planned.
pub struct PlanningGround {
    pub catalog: PolicyCatalog,
    pub projections: ProjectionsView,
    pub fact_snapshot_id: Seq<char>,
    pub instances: Seq<InstanceSnapshot>,
    /// The instances that an ordinary task waits for.
    pub occupied: Set<Seq<char>>,
    pub now_unix_ms: u64,
}

/// What has been planned so far.
pub struct PlannedSignals {
    pub quota: QuotaView,
    pub emitted: Set<Seq<char>>,
    pub signals: Seq<SignalView>,
}

/// The id of the reservation for a suggestion.
pub open spec fn reservation_id(
    ground: PlanningGround,
    task_id: Seq<char>,
    instance_id: Seq<char>,
    suggestion: DetectionSuggestion,
) -> Seq<char> {
    signal_name(
        "reserved"@,
        seq![
            ground.fact_snapshot_id,
            ground.catalog.catalog_hash@,
            task_id,
            instance_id,
            scope_name(suggestion.scope),
            suggestion.fact_key@,
            suggestion.reason@,
        ],
    )
}

/// The id of the signal that a window is exhausted.
pub open spec fn exhaustion_id(
    ground: PlanningGround,
    instance_id: Seq<char>,
    profile_id: Seq<char>,
    window_id: Seq<char>,
) -> Seq<char> {
    signal_name(
        "exhausted"@,
        seq![instance_id, ground.catalog.catalog_hash@, profile_id, window_id],
    )
}

impl PlannedSignals {
    pub open spec fn with(self, quota: QuotaView, signal: SignalView) -> PlannedSignals {
        PlannedSignals {
            quota,
            emitted: self.emitted.insert(signal.signal_id),
            signals: self.signals.push(signal),
        }
    }

    /// The windows in use once a window has been looked up.
    pub open spec fn looked_up(self, ground: PlanningGround, key: PairId) -> QuotaView {
        if self.quota.windows.contains_key(key) {
            self.quota.touched(key)
        } else if ground.projections.quotas.contains_key(key) {
            self.quota.cached(key, ground.projections.quotas[key].1)
        } else {
            self.quota
        }
    }

    /// The plan with the signal for a suggestion in an open window.
    pub open spec fn with_reservation(
        self,
        ground: PlanningGround,
        profile: ActivityProfile,
        task_id: Seq<char>,
        instance_id: Seq<char>,
        suggestion: DetectionSuggestion,
        window_id: Seq<char>,
    ) -> Result<PlannedSignals, RuntimeHostError> {
        let key = (instance_id, window_id);
        let known = ground.projections.signals;
        let loaded = self.looked_up(ground, key);
        let noted = loaded.touched_if_known(key);
        match reservation(
            loaded.usage(key),
            profile.detection_budget,
            ground.catalog.catalog_hash@,
            profile.id@,
            window_id,
        ) {
            Err(error) => Err(error),
            Ok((kind, budget)) => {
                let exhausted = kind == PolicyPlanningSignalKind::DetectionQuotaExhausted;
                let signal_id = if exhausted {
                    exhaustion_id(ground, instance_id, profile.id@, window_id)
                } else {
                    reservation_id(ground, task_id, instance_id, suggestion)
                };
                let signal = SignalView {
                    signal_id,
                    instance_id,
                    task_id: Some(task_id),
                    kind,
                    fact_code: suggestion.fact_key@ + "."@ + suggestion.reason@,
                    observed_at_unix_ms: ground.now_unix_ms,
                    detection_budget: Some(budget),
                };
                if self.emitted.contains(signal_id) {
                    Ok(PlannedSignals { quota: noted, ..self })
                } else if known.contains_key(signal_id) {
                    if exhausted {
                        Ok(
                            PlannedSignals {
                                quota: noted,
                                emitted: self.emitted.insert(signal_id),
                                signals: self.signals.push(known[signal_id].1),
                            },
                        )
                    } else {
                        Ok(PlannedSignals { quota: noted, ..self })
                    }
                } else {
                    match noted.after_signal(signal) {
                        (quota, Ok(_)) => Ok(self.with(quota, signal)),
                        (_, Err(error)) => Err(error),
                    }
                }
            },
        }
    }

    /// The plan with a suggestion taken into account. What has been reserved
    /// before is not reserved again.
    pub open spec fn with_suggestion(
        self,
        ground: PlanningGround,
        profile: ActivityProfile,
        task_id: Seq<char>,
        instance_id: Seq<char>,
        suggestion: DetectionSuggestion,
    ) -> Result<PlannedSignals, RuntimeHostError> {
        let id = reservation_id(ground, task_id, instance_id, suggestion);
        if ground.projections.signals.contains_key(id) || self.emitted.contains(id) {
            Ok(self)
        } else {
            match open_window(profile, ground.now_unix_ms) {
                None => Err(window_closed()),
                Some((day, index)) => self.with_reservation(
                    ground,
                    profile,
                    task_id,
                    instance_id,
                    suggestion,
                    window_name(profile.id@, day, index),
                ),
            }
        }
    }

    /// The plan with some suggestions taken into account, in order.
    pub open spec fn with_suggestions(
        self,
        ground: PlanningGround,
        profile: ActivityProfile,
        task_id: Seq<char>,
        instance_id: Seq<char>,
        suggestions: Seq<DetectionSuggestion>,
    ) -> Result<PlannedSignals, RuntimeHostError>
        decreases suggestions.len(),
    {
        if suggestions.len() == 0 {
            Ok(self)
        } else {
            match self.with_suggestions(
                ground,
                profile,
                task_id,
                instance_id,
                suggestions.drop_last(),
            ) {
                Err(error) => Err(error),
                Ok(plan) => plan.with_suggestion(
                    ground,
                    profile,
                    task_id,
                    instance_id,
                    suggestions.last(),
                ),
            }
        }
    }

    /// The plan with a decision taken into account. An instance that an
    /// ordinary task waits for does no detection.
    pub open spec fn with_decision(self, ground: PlanningGround, decision: PolicyDecision) -> Result<
        PlannedSignals,
        RuntimeHostError,
    > {
        if decision.instance_id is None || decision.detection_suggestions@.len() == 0
            || ground.occupied.contains((decision.instance_id->0)@) {
            Ok(self)
        } else {
            let instance_id = (decision.instance_id->0)@;
            match first_position(ground.instances, instance_named(instance_id)) {
                None => Err(
                    policy_fatal("policy_detection_instance_missing", "plan_policy_detection"),
                ),
                Some(instance) => match profile_for(
                    ground.catalog.profiles@,
                    ground.instances[instance],
                ) {
                    None => Err(
                        policy_request("policy_activity_profile_missing", "plan_policy_detection"),
                    ),
                    Some(profile) => self.with_suggestions(
                        ground,
                        ground.catalog.profiles@[profile],
                        decision.task_id@,
                        instance_id,
                        decision.detection_suggestions@,
                    ),
                },
            }
        }
    }

    /// The plan with some decisions taken into account, in order.
    pub open spec fn with_decisions(self, ground: PlanningGround, decisions: Seq<PolicyDecision>) ->
        Result<PlannedSignals, RuntimeHostError>
        decreases decisions.len(),
    {
        if decisions.len() == 0 {
            Ok(self)
        } else {
            match self.with_decisions(ground, decisions.drop_last()) {
                Err(error) => Err(error),
                Ok(plan) => plan.with_decision(ground, decisions.last()),
            }
        }
    }
}

pub open spec fn instance_named(id: Seq<char>) -> spec_fn(InstanceSnapshot) -> bool {
    |instance: InstanceSnapshot| instance.instance_id@ == id
}

proof fn lemma_suggestions_stop_at_error(
    plan: PlannedSignals,
    ground: PlanningGround,
    profile: ActivityProfile,
    task_id: Seq<char>,
    instance_id: Seq<char>,
    suggestions: Seq<DetectionSuggestion>,
    count: int,
)
    requires
        0 <= count <= suggestions.len(),
        plan.with_suggestions(
            ground,
            profile,
            task_id,
            instance_id,
            suggestions.take(count),
        ) is Err,
    ensures
        plan.with_suggestions(ground, profile, task_id, instance_id, suggestions)
            == plan.with_suggestions(
            ground,
            profile,
            task_id,
            instance_id,
            suggestions.take(count),
        ),
    decreases suggestions.len(),
{
    if count == suggestions.len() {
        assert(suggestions.take(count) =~= suggestions);
    } else {
        assert(suggestions.drop_last().take(count) =~= suggestions.take(count));
        lemma_suggestions_stop_at_error(
            plan,
            ground,
            profile,
            task_id,
            instance_id,
            suggestions.drop_last(),
            count,
        );
    }
}

proof fn lemma_decisions_stop_at_error(
    plan: PlannedSignals,
    ground: PlanningGround,
    decisions: Seq<PolicyDecision>,
    count: int,
)
    requires
        0 <= count <= decisions.len(),
        plan.with_decisions(ground, decisions.take(count)) is Err,
    ensures
        plan.with_decisions(ground, decisions) == plan.with_decisions(
            ground,
            decisions.take(count),
        ),
    decreases decisions.len(),
{
    if count == decisions.len() {
        assert(decisions.take(count) =~= decisions);
    } else {
        assert(decisions.drop_last().take(count) =~= decisions.take(count));
        lemma_decisions_stop_at_error(plan, ground, decisions.drop_last(), count);
    }
}

/// The instances that some intents are for.
pub open spec fn instances_of(intents: Seq<IntentView>) -> Set<Seq<char>> {
    Set::new(
        |id: Seq<char>|
            exists|i: int| 0 <= i < intents.len() && (#[trigger] intents[i]).instance_id == id,
    )
}

pub open spec fn signal_views(signals: Seq<PolicyPlanningSignalEventData>) -> Seq<SignalView> {
    signals.map_values(|signal: PolicyPlanningSignalEventData| signal@)
}

/// A plan in the making.
struct SignalPlan {
    quota: DetectionQuotaState,
    emitted: OrderedMap<String, ()>,
    signals: Vec<PolicyPlanningSignalEventData>,
}

impl View for SignalPlan {
    type V = PlannedSignals;

    closed spec fn view(&self) -> PlannedSignals {
        PlannedSignals {
            quota: self.quota@,
            emitted: self.emitted@.dom(),
            signals: signal_views(self.signals@),
        }
    }
}

impl SignalPlan {
    closed spec fn wf(&self) -> bool {
        self.quota.wf() && self.emitted.wf()
    }

    fn emit(&mut self, signal: PolicyPlanningSignalEventData)
        requires
            old(self).wf(),
        ensures
            final(self).wf(),
            final(self)@ == old(self)@.with(old(self)@.quota, signal@),
    {
        let ghost before = self.signals@;
        self.emitted.insert(signal.signal_id.clone(), ());
        self.signals.push(signal);
        assert(signal_views(self.signals@) =~= signal_views(before).push(signal@));
        assert(self@.emitted =~= old(self)@.emitted.insert(signal.signal_id@));
    }

    fn add_suggestion(
        &mut self,
        projections: &PlanningProjections,
        catalog: &PolicyCatalog,
        profile: &ActivityProfile,
        fact_snapshot_id: &String,
        task_id: &String,
        instance_id: &String,
        suggestion: &DetectionSuggestion,
        now_unix_ms: u64,
        Ghost(ground): Ghost<PlanningGround>,
    ) -> (result: RuntimeHostResult<()>)
        requires
            old(self).wf(),
            projections.wf(),
            ground.catalog == *catalog,
            ground.projections == projections@,
            ground.fact_snapshot_id == fact_snapshot_id@,
            ground.now_unix_ms == now_unix_ms,
        ensures
            final(self).wf(),
            match old(self)@.with_suggestion(
                ground,
                *profile,
                task_id@,
                instance_id@,
                *suggestion,
            ) {
                Ok(plan) => result == Ok::<(), RuntimeHostError>(()) && final(self)@ == plan,
                Err(error) => result == Err::<(), _>(error),
            },
    {
        let scope = scope_identity(&suggestion.scope);
        let mut components: Vec<&str> = Vec::new();
        components.push(fact_snapshot_id.as_str());
        components.push(catalog.catalog_hash.as_str());
        components.push(task_id.as_str());
        components.push(instance_id.as_str());
        components.push(scope.as_str());
        components.push(suggestion.fact_key.as_str());
        components.push(suggestion.reason.as_str());
        assert(slices(components@) =~= seq![
            ground.fact_snapshot_id,
            ground.catalog.catalog_hash@,
            task_id@,
            instance_id@,
            scope_name(suggestion.scope),
            suggestion.fact_key@,
            suggestion.reason@,
        ]);
        let id = detection_signal_id("reserved", &components);
        if projections.load_planning_signal(&id).is_some() || self.emitted.contains(&id) {
            return Ok(());
        }
        let (_, window_id) = active_activity_window(profile, now_unix_ms)?;
        let key = pair_key(instance_id, &window_id);
        if self.quota.windows.contains(&key) {
            self.quota.touch(&key);
        } else if let Some((_, usage)) = projections.load_detection_quota(&key) {
            self.quota.cache_usage(pair_key(instance_id, &window_id), usage)?;
        }
        let (kind, budget) = self.quota.preview(
            profile,
            catalog.catalog_hash.as_str(),
            instance_id.as_str(),
            now_unix_ms,
        )?;
        let exhausted = kind == PolicyPlanningSignalKind::DetectionQuotaExhausted;
        let signal_id = if exhausted {
            let mut parts: Vec<&str> = Vec::new();
            parts.push(instance_id.as_str());
            parts.push(budget.catalog_hash.as_str());
            parts.push(profile.id.as_str());
            parts.push(budget.window_id.as_str());
            assert(slices(parts@) =~= seq![
                instance_id@,
                ground.catalog.catalog_hash@,
                profile.id@,
                window_id@,
            ]);
            detection_signal_id("exhausted", &parts)
        } else {
            id
        };
        if self.emitted.contains(&signal_id) {
            return Ok(());
        }
        if let Some(existing) = projections.load_planning_signal(&signal_id) {
            if exhausted {
                let ghost before = self.signals@;
                let ghost emitted = self@.emitted;
                let signal = existing.1.copy();
                self.signals.push(signal);
                self.emitted.insert(signal_id, ());
                proof {
                    assert(signal_views(self.signals@) =~= signal_views(before).push(signal@));
                    assert(self@.emitted =~= emitted.insert(signal_id@));
                }
            }
            return Ok(());
        }
        let mut fact_code = suggestion.fact_key.clone();
        fact_code.append(".");
        fact_code.append(suggestion.reason.as_str());
        let signal = PolicyPlanningSignalEventData {
            signal_id,
            instance_id: instance_id.clone(),
            task_id: Some(task_id.clone()),
            kind,
            fact_code,
            observed_at_unix_ms: now_unix_ms,
            detection_budget: Some(budget),
        };
        self.quota.commit_signal(&signal)?;
        self.emit(signal);
        Ok(())
    }

    fn add_decision(
        &mut self,
        projections: &PlanningProjections,
        catalog: &PolicyCatalog,
        facts: &EvaluationFacts,
        occupied: &OrderedMap<String, ()>,
        decision: &PolicyDecision,
        now_unix_ms: u64,
        Ghost(ground): Ghost<PlanningGround>,
    ) -> (result: RuntimeHostResult<()>)
        requires
            old(self).wf(),
            projections.wf(),
            occupied.wf(),
            ground.catalog == *catalog,
            ground.projections == projections@,
            ground.fact_snapshot_id == facts.fact_snapshot_id@,
            ground.instances == facts.instances@,
            ground.occupied =~= occupied@.dom(),
            ground.now_unix_ms == now_unix_ms,
        ensures
            final(self).wf(),
            match old(self)@.with_decision(ground, *decision) {
                Ok(plan) => result == Ok::<(), RuntimeHostError>(()) && final(self)@ == plan,
                Err(error) => result == Err::<(), _>(error),
            },
    {
        let instance_id = match &decision.instance_id {
            Some(instance_id) => instance_id,
            None => {
                return Ok(());
            },
        };
        if decision.detection_suggestions.len() == 0 || occupied.contains(instance_id) {
            return Ok(());
        }
        let instance = match find_instance(&facts.instances, instance_id.as_str()) {
            Some(index) => &facts.instances[index],
            None => {
                return Err(fatal("policy_detection_instance_missing", "plan_policy_detection"));
            },
        };
        let profile = match matching_activity_profile(&catalog.profiles, instance) {
            Some(index) => &catalog.profiles[index],
            None => {
                return Err(request("policy_activity_profile_missing", "plan_policy_detection"));
            },
        };
        let ghost all = decision.detection_suggestions@;
        let ghost before = self@;
        proof {
            assert(!ground.occupied.contains(instance_id@));
            assert(ground.instances[first_position(
                ground.instances,
                instance_named(instance_id@),
            )->0] == *instance);
            assert(ground.catalog.profiles@[profile_for(
                ground.catalog.profiles@,
                *instance,
            )->0] == *profile);
        }
        let mut index: usize = 0;
        assert(all.take(0) =~= Seq::empty());
        while index < decision.detection_suggestions.len()
            invariant
                index <= decision.detection_suggestions.len(),
                self.wf(),
                projections.wf(),
                ground.catalog == *catalog,
                ground.projections == projections@,
                ground.fact_snapshot_id == facts.fact_snapshot_id@,
                ground.now_unix_ms == now_unix_ms,
                all == decision.detection_suggestions@,
                before.with_suggestions(
                    ground,
                    *profile,
                    decision.task_id@,
                    instance_id@,
                    all.take(index as int),
                ) == Ok::<PlannedSignals, RuntimeHostError>(self@),
                before.with_suggestions(
                    ground,
                    *profile,
                    decision.task_id@,
                    instance_id@,
                    all,
                ) == old(self)@.with_decision(ground, *decision),
            decreases decision.detection_suggestions.len() - index,
        {
            let ghost taken = all.take(index + 1);
            proof {
                assert(taken.drop_last() =~= all.take(index as int));
                assert(taken.last() == all[index as int]);
            }
            if let Err(error) = self.add_suggestion(
                projections,
                catalog,
                profile,
                &facts.fact_snapshot_id,
                &decision.task_id,
                instance_id,
                &decision.detection_suggestions[index],
                now_unix_ms,
                Ghost(ground),
            ) {
                proof {
                    lemma_suggestions_stop_at_error(
                        before,
                        ground,
                        *profile,
                        decision.task_id@,
                        instance_id@,
                        all,
                        index + 1,
                    );
                }
                return Err(error);
            }
            index += 1;
        }
        assert(all.take(all.len() as int) =~= all);
        Ok(())
    }
}

fn find_instance(instances: &Vec<InstanceSnapshot>, id: &str) -> (found: Option<usize>)
    ensures
        match found {
            Some(index) => index < instances@.len() && first_position(
                instances@,
                instance_named(id@),
            ) == Some(index as int),
            None => first_position(instances@, instance_named(id@)) is None,
        },
{
    let ghost wanted = instance_named(id@);
    let mut index: usize = 0;
    while index < instances.len()
        invariant
            index <= instances.len(),
            wanted == instance_named(id@),
            forall|i: int| 0 <= i < index ==> !wanted(#[trigger] instances@[i]),
        decreases instances.len() - index,
    {
        if same_text(instances[index].instance_id.as_str(), id) {
            proof {
                lemma_first_position(instances@, wanted, index as int);
            }
            return Some(index);
        }
        index += 1;
    }
    proof {
        lemma_no_position(instances@, wanted);
    }
    None
}

impl DetectionPlanner {
    /// What planning starts from.
    pub open spec fn ground(
        &self,
        catalog: PolicyCatalog,
        facts: EvaluationFacts,
        pending: Seq<DispatchIntent>,
        now_unix_ms: u64,
    ) -> PlanningGround {
        PlanningGround {
            catalog,
            projections: self.projections@,
            fact_snapshot_id: facts.fact_snapshot_id@,
            instances: facts.instances@,
            occupied: instances_of(intent_views(pending)),
            now_unix_ms,
        }
    }

    /// The signals that the suggestions of an evaluation call for, in order.
    /// Nothing is counted: planning works on a copy of the windows in use.
    pub fn preview_detection_planning_signals(
        &self,
        catalog: &PolicyCatalog,
        facts: &EvaluationFacts,
        evaluation: &PolicyEvaluation,
        pending_dispatch_intents: &Vec<DispatchIntent>,
        now_unix_ms: u64,
    ) -> (result: RuntimeHostResult<Vec<PolicyPlanningSignalEventData>>)
        requires
            self.wf(),
        ensures
            if now_unix_ms == 0 {
                result matches Err(error) && error == policy_fatal(
                    "policy_detection_time_invalid",
                    "plan_policy_detection",
                )
            } else {
                match (PlannedSignals {
                    quota: self@.quota,
                    emitted: Set::empty(),
                    signals: Seq::empty(),
                }).with_decisions(
                    self.ground(*catalog, *facts, pending_dispatch_intents@, now_unix_ms),
                    evaluation.decisions@,
                ) {
                    Ok(plan) => result matches Ok(signals) && signal_views(signals@)
                        == plan.signals,
                    Err(error) => result matches Err(actual) && actual == error,
                }
            },
    {
        if now_unix_ms == 0 {
            return Err(fatal("policy_detection_time_invalid", "plan_policy_detection"));
        }
        let ghost ground = self.ground(*catalog, *facts, pending_dispatch_intents@, now_unix_ms);
        let mut occupied: OrderedMap<String, ()> = OrderedMap::new();
        let mut index: usize = 0;
        while index < pending_dispatch_intents.len()
            invariant
                index <= pending_dispatch_intents.len(),
                occupied.wf(),
                forall|id: Seq<char>| #[trigger]
                    occupied@.contains_key(id) <==> exists|i: int|
                        0 <= i < index && (#[trigger] pending_dispatch_intents@[i]).instance_id@
                            == id,
            decreases pending_dispatch_intents.len() - index,
        {
            let ghost before = occupied@;
            occupied.insert(pending_dispatch_intents[index].instance_id.clone(), ());
            proof {
                let added = pending_dispatch_intents@[index as int].instance_id@;
                assert forall|id: Seq<char>| #[trigger]
                    occupied@.contains_key(id) implies exists|i: int|
                    0 <= i < index + 1 && (#[trigger] pending_dispatch_intents@[i]).instance_id@
                        == id by {
                    if id == added {
                        assert(pending_dispatch_intents@[index as int].instance_id@ == id);
                    } else {
                        assert(before.contains_key(id));
                    }
                }
                assert forall|id: Seq<char>, i: int|
                    0 <= i < index + 1 && (#[trigger] pending_dispatch_intents@[i]).instance_id@
                        == id implies #[trigger] occupied@.contains_key(id) by {
                    if i < index {
                        assert(before.contains_key(id));
                    }
                }
            }
            index += 1;
        }
        proof {
            let pending = intent_views(pending_dispatch_intents@);
            assert forall|id: Seq<char>| #[trigger]
                occupied@.contains_key(id) == ground.occupied.contains(id) by {
                if occupied@.contains_key(id) {
                    let i = choose|i: int|
                        0 <= i < pending.len() && (
                        #[trigger] pending_dispatch_intents@[i]).instance_id@ == id;
                    assert(pending[i].instance_id == id);
                }
                if ground.occupied.contains(id) {
                    let i = choose|i: int|
                        0 <= i < pending.len() && (#[trigger] pending[i]).instance_id == id;
                    assert(pending_dispatch_intents@[i].instance_id@ == id);
                }
            }
            assert(ground.occupied =~= occupied@.dom());
        }
        let mut plan = SignalPlan {
            quota: self.quota.copy(),
            emitted: OrderedMap::new(),
            signals: Vec::new(),
        };
        let ghost all = evaluation.decisions@;
        let ghost start = PlannedSignals {
            quota: self@.quota,
            emitted: Set::empty(),
            signals: Seq::empty(),
        };
        proof {
            assert(plan@.signals =~= start.signals);
            assert(plan@.emitted =~= start.emitted);
            assert(all.take(0) =~= Seq::empty());
        }
        let mut index: usize = 0;
        while index < evaluation.decisions.len()
            invariant
                index <= evaluation.decisions.len(),
                now_unix_ms > 0,
                self.wf(),
                plan.wf(),
                occupied.wf(),
                ground.occupied =~= occupied@.dom(),
                ground == self.ground(*catalog, *facts, pending_dispatch_intents@, now_unix_ms),
                all == evaluation.decisions@,
                start == (PlannedSignals {
                    quota: self@.quota,
                    emitted: Set::empty(),
                    signals: Seq::empty(),
                }),
                start.with_decisions(ground, all.take(index as int)) == Ok::<
                    PlannedSignals,
                    RuntimeHostError,
                >(plan@),
            decreases evaluation.decisions.len() - index,
        {
            let ghost taken = all.take(index + 1);
            proof {
                assert(taken.drop_last() =~= all.take(index as int));
                assert(taken.last() == all[index as int]);
            }
            if let Err(error) = plan.add_decision(
                &self.projections,
                catalog,
                facts,
                &occupied,
                &evaluation.decisions[index],
                now_unix_ms,
                Ghost(ground),
            ) {
                proof {
                    lemma_decisions_stop_at_error(start, ground, all, index + 1);
                }
                return Err(error);
            }
            index += 1;
        }
        assert(all.take(all.len() as int) =~= all);
        Ok(plan.signals)
    }
}

/// Every planned signal has an id of its own.
pub open spec fn ids_are_distinct(plan: PlannedSignals) -> bool {
    &&& forall|i: int|
        0 <= i < plan.signals.len() ==> plan.emitted.contains(
            (#[trigger] plan.signals[i]).signal_id,
        )
    &&& forall|i: int, j: int|
        0 <= i < j < plan.signals.len() ==> (#[trigger] plan.signals[i]).signal_id != (
        #[trigger] plan.signals[j]).signal_id
}

/// Every signal is stored under its own id.
pub open spec fn stored_under_id(projections: ProjectionsView) -> bool {
    forall|id: Seq<char>| #[trigger]
        projections.signals.contains_key(id) ==> projections.signals[id].1.signal_id == id
}

proof fn lemma_suggestions_keep_ids_distinct(
    plan: PlannedSignals,
    ground: PlanningGround,
    profile: ActivityProfile,
    task_id: Seq<char>,
    instance_id: Seq<char>,
    suggestions: Seq<DetectionSuggestion>,
)
    requires
        ids_are_distinct(plan),
        stored_under_id(ground.projections),
    ensures
        plan.with_suggestions(ground, profile, task_id, instance_id, suggestions) matches Ok(after)
            ==> ids_are_distinct(after),
    decreases suggestions.len(),
{
    if suggestions.len() > 0 {
        lemma_suggestions_keep_ids_distinct(
            plan,
            ground,
            profile,
            task_id,
            instance_id,
            suggestions.drop_last(),
        );
    }
}

/// No signal is planned twice in one evaluation.
pub proof fn law_no_signal_is_planned_twice(
    plan: PlannedSignals,
    ground: PlanningGround,
    decisions: Seq<PolicyDecision>,
)
    requires
        ids_are_distinct(plan),
        stored_under_id(ground.projections),
    ensures
        plan.with_decisions(ground, decisions) matches Ok(after) ==> ids_are_distinct(after),
    decreases decisions.len(),
{
    if decisions.len() > 0 {
        law_no_signal_is_planned_twice(plan, ground, decisions.drop_last());
        if let Ok(earlier) = plan.with_decisions(ground, decisions.drop_last()) {
            let decision = decisions.last();
            let instance_id = (decision.instance_id->0)@;
            let instance = first_position(ground.instances, instance_named(instance_id))->0;
            let profile = profile_for(ground.catalog.profiles@, ground.instances[instance])->0;
            lemma_suggestions_keep_ids_distinct(
                earlier,
                ground,
                ground.catalog.profiles@[profile],
                decision.task_id@,
                instance_id,
                decision.detection_suggestions@,
            );
        }
    }
}

/// A decision about no instance, without a suggestion, or about an instance
/// that a pending dispatch takes, plans nothing.
pub proof fn law_occupied_instances_are_not_inspected(
    plan: PlannedSignals,
    ground: PlanningGround,
    decision: PolicyDecision,
)
    requires
        decision.instance_id is None || decision.detection_suggestions@.len() == 0
            || ground.occupied.contains((decision.instance_id->0)@),
    ensures
        plan.with_decision(ground, decision) == Ok::<_, RuntimeHostError>(plan),
{
}

/// A suggestion that was planned or stored before plans nothing more; any other
/// one outside of the profile's hours is refused.
pub proof fn law_suggestions_wait_for_the_window(
    plan: PlannedSignals,
    ground: PlanningGround,
    profile: ActivityProfile,
    task_id: Seq<char>,
    instance_id: Seq<char>,
    suggestion: DetectionSuggestion,
)
    requires
        forall|i: int|
            0 <= i < profile.windows@.len() ==> open_day(
                #[trigger] profile.windows@[i],
                ground.now_unix_ms,
            ) is None,
    ensures
        ({
            let id = reservation_id(ground, task_id, instance_id, suggestion);
            let known = ground.projections.signals.contains_key(id) || plan.emitted.contains(id);
            let result = plan.with_suggestion(ground, profile, task_id, instance_id, suggestion);
            &&& known ==> result == Ok::<_, RuntimeHostError>(plan)
            &&& !known ==> (result matches Err(error) && error.code
                == "policy_activity_window_closed")
        }),
{
    law_first_open_window_counts(profile, ground.now_unix_ms);
}

/// A new suggestion in an open window whose quota has room plans one signal
/// more: a reservation for its task and instance, dated now, that counts one
/// more use of the window and stays within the profile's budget.
pub proof fn law_suggestion_reserves_while_there_is_room(
    plan: PlannedSignals,
    ground: PlanningGround,
    profile: ActivityProfile,
    task_id: Seq<char>,
    instance_id: Seq<char>,
    suggestion: DetectionSuggestion,
    window_id: Seq<char>,
)
    requires
        plan.quota.wf(),
        plan.quota.max_windows > 0,
        !ground.projections.signals.contains_key(
            reservation_id(ground, task_id, instance_id, suggestion),
        ),
        !plan.emitted.contains(reservation_id(ground, task_id, instance_id, suggestion)),
        ({
            let usage = plan.looked_up(ground, (instance_id, window_id)).usage(
                (instance_id, window_id),
            );
            let budget = profile.detection_budget;
            &&& usage.dispatch_used < budget.window_dispatch_limit
            &&& usage.runtime_reserved_ms + budget.expected_duration_ms
                <= budget.window_runtime_ms
        }),
    ensures
        ({
            let usage = plan.looked_up(ground, (instance_id, window_id)).usage(
                (instance_id, window_id),
            );
            let result = plan.with_reservation(
                ground,
                profile,
                task_id,
                instance_id,
                suggestion,
                window_id,
            );
            &&& result is Ok
            &&& result->Ok_0.signals.len() == plan.signals.len() + 1
            &&& result->Ok_0.signals.drop_last() =~= plan.signals
            &&& ({
                let signal = result->Ok_0.signals.last();
                &&& signal.kind == PolicyPlanningSignalKind::DetectionReserved
                &&& signal.instance_id == instance_id && signal.task_id == Some(task_id)
                &&& signal.observed_at_unix_ms == ground.now_unix_ms
                &&& signal.detection_budget matches Some(budget) && budget.dispatch_used
                    == usage.dispatch_used + 1 && budget.runtime_reserved_ms
                    == usage.runtime_reserved_ms + profile.detection_budget.expected_duration_ms
                    && budget.window_id == window_id && budget.profile_id == profile.id@
            })
        }),
{
    let key = (instance_id, window_id);
    let loaded = plan.looked_up(ground, key);
    if plan.quota.windows.contains_key(key) {
        law_cache_stays_bounded(plan.quota, key, no_usage());
    } else if ground.projections.quotas.contains_key(key) {
        law_cache_stays_bounded(plan.quota, key, ground.projections.quotas[key].1);
    }
    law_reservation_is_given_while_it_fits(
        loaded.usage(key),
        profile.detection_budget,
        ground.catalog.catalog_hash@,
        profile.id@,
        window_id,
    );
    law_cache_stays_bounded(loaded, key, no_usage());
}

/// A window without room plans no reservation: what is planned says that the
/// window is exhausted, and leaves its use as it is.
pub proof fn law_exhausted_window_reserves_nothing(
    plan: PlannedSignals,
    ground: PlanningGround,
    profile: ActivityProfile,
    task_id: Seq<char>,
    instance_id: Seq<char>,
    suggestion: DetectionSuggestion,
    window_id: Seq<char>,
)
    requires
        plan.quota.wf(),
        plan.quota.max_windows > 0,
        forall|id: Seq<char>| #[trigger]
            ground.projections.signals.contains_key(id) && id == exhaustion_id(
                ground,
                instance_id,
                profile.id@,
                window_id,
            ) ==> ground.projections.signals[id].1.kind
                == PolicyPlanningSignalKind::DetectionQuotaExhausted,
        ({
            let usage = plan.looked_up(ground, (instance_id, window_id)).usage(
                (instance_id, window_id),
            );
            let budget = profile.detection_budget;
            usage.dispatch_used >= budget.window_dispatch_limit || usage.runtime_reserved_ms
                + budget.expected_duration_ms > budget.window_runtime_ms
        }),
    ensures
        plan.with_reservation(ground, profile, task_id, instance_id, suggestion, window_id)
            matches Ok(after) ==> {
            &&& after.signals.len() <= plan.signals.len() + 1
            &&& after.signals.take(plan.signals.len() as int) =~= plan.signals
            &&& after.signals.len() > plan.signals.len() ==> after.signals.last().kind
                == PolicyPlanningSignalKind::DetectionQuotaExhausted
            &&& after.quota.windows == plan.looked_up(ground, (instance_id, window_id)).windows
        },
{
    let key = (instance_id, window_id);
    let loaded = plan.looked_up(ground, key);
    let usage = loaded.usage(key);
    if plan.with_reservation(ground, profile, task_id, instance_id, suggestion, window_id) is Ok {
        law_reservation_is_given_while_it_fits(
            usage,
            profile.detection_budget,
            ground.catalog.catalog_hash@,
            profile.id@,
            window_id,
        );
    }
}

/// A signal is committed under its sequence and counts in its window; it is
/// refused where its name, or the sequence of its window, tells of another.
pub proof fn law_committed_signal_is_stored(
    planner: PlannerView,
    shelf: CatalogShelf,
    sequence: u64,
    data: SignalView,
)
    requires
        planner.committed(shelf, sequence, data).1 is Ok,
    ensures
        ({
            let after = planner.committed(shelf, sequence, data).0;
            let known = planner.projections.signals;
            &&& after.projections.signals.contains_key(data.signal_id)
            &&& after.projections.signals[data.signal_id] == (sequence, data)
            &&& known.contains_key(data.signal_id) ==> known[data.signal_id] == (sequence, data)
            &&& after.projections.checkpoint == Some(sequence)
            &&& data.detection_budget is Some ==> {
                let window = (data.instance_id, data.detection_budget->0.window_id);
                let quotas = planner.projections.quotas;
                &&& is_detection(data.kind)
                &&& quotas.contains_key(window) ==> quotas[window].0 <= sequence
                &&& after.projections.quotas.contains_key(window)
                    && after.projections.quotas[window].0 == sequence
            }
        }),
{
}

/// A signal that is refused for what it is changes nothing.
pub proof fn law_refused_signal_changes_nothing(
    planner: PlannerView,
    shelf: CatalogShelf,
    sequence: u64,
    data: SignalView,
)
    requires
        signal_error(shelf, data) is Some || (planner.projections.signals.contains_key(
            data.signal_id,
        ) && planner.projections.signals[data.signal_id] != (sequence, data)),
    ensures
        planner.committed(shelf, sequence, data).0 == planner,
        planner.committed(shelf, sequence, data).1 is Err,
{
}

/// A checkpoint is moved to the newest sequence when the signals stop before
/// it, and stays otherwise; the windows that were used stay either way.
pub proof fn law_checkpoint_covers_a_quiet_ledger(
    planner: PlannerView,
    latest: u64,
    sequence: u64,
)
    ensures
        sequence >= latest ==> planner.checkpointed(latest, sequence) == (
            planner,
            Ok::<(), RuntimeHostError>(()),
        ),
        sequence < latest && (planner.projections.checkpoint is None
            || planner.projections.checkpoint->0 <= latest) ==> planner.checkpointed(
            latest,
            sequence,
        ).0.projections.checkpoint == Some(latest) && planner.checkpointed(latest, sequence).1 is Ok,
        planner.checkpointed(latest, sequence).0.quota == planner.quota,
{
}

} // verus!
