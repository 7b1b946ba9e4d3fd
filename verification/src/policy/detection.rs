//! How much detection an instance may do in a window: a bounded cache of the
//! windows in use, the least recently used one leaving first.

use std::collections::VecDeque;
use vstd::prelude::*;

use crate::error::{RuntimeHostError, RuntimeHostResult};
use crate::ordered_map::{lemma_keys_are_domain, lemma_same_entries, OrderedKey, OrderedMap};
use crate::policy::activity::{active_activity_window, open_window, window_closed, window_name};
use crate::policy::catalog::{fatal, policy_fatal, ActivityProfile, DetectionBudget};
use crate::policy::control::{pair_key, PairId, PairKey};
use crate::text::{copy_optional_text, optional_text, same_optional_text, same_text};

verus! {

#[derive(Debug, Clone, Copy, PartialEq, Eq, Structural)]
pub enum PolicyPlanningSignalKind {
    DetectionReserved,
    DetectionQuotaExhausted,
    /// A signal that has nothing to do with detection.
    Other(u32),
}

/// A reservation in the detection budget of a window.
#[derive(Debug, Clone, PartialEq, Eq)]
pub struct PolicyDetectionBudgetRecord {
    pub catalog_hash: String,
    pub profile_id: String,
    pub window_id: String,
    pub dispatch_used: u32,
    pub dispatch_limit: u32,
    pub runtime_reserved_ms: u64,
    pub runtime_limit_ms: u64,
    pub reservation_ms: u64,
}

/// The value of a reservation.
pub struct BudgetView {
    pub catalog_hash: Seq<char>,
    pub profile_id: Seq<char>,
    pub window_id: Seq<char>,
    pub dispatch_used: u32,
    pub dispatch_limit: u32,
    pub runtime_reserved_ms: u64,
    pub runtime_limit_ms: u64,
    pub reservation_ms: u64,
}

impl View for PolicyDetectionBudgetRecord {
    type V = BudgetView;

    open spec fn view(&self) -> BudgetView {
        BudgetView {
            catalog_hash: self.catalog_hash@,
            profile_id: self.profile_id@,
            window_id: self.window_id@,
            dispatch_used: self.dispatch_used,
            dispatch_limit: self.dispatch_limit,
            runtime_reserved_ms: self.runtime_reserved_ms,
            runtime_limit_ms: self.runtime_limit_ms,
            reservation_ms: self.reservation_ms,
        }
    }
}

impl PolicyDetectionBudgetRecord {
    pub fn copy(&self) -> (record: Self)
        ensures
            record@ == self@,
    {
        PolicyDetectionBudgetRecord {
            catalog_hash: self.catalog_hash.clone(),
            profile_id: self.profile_id.clone(),
            window_id: self.window_id.clone(),
            dispatch_used: self.dispatch_used,
            dispatch_limit: self.dispatch_limit,
            runtime_reserved_ms: self.runtime_reserved_ms,
            runtime_limit_ms: self.runtime_limit_ms,
            reservation_ms: self.reservation_ms,
        }
    }

    fn same(&self, other: &Self) -> (same: bool)
        ensures
            same == (self@ == other@),
    {
        same_text(self.catalog_hash.as_str(), other.catalog_hash.as_str()) && same_text(
            self.profile_id.as_str(),
            other.profile_id.as_str(),
        ) && same_text(self.window_id.as_str(), other.window_id.as_str()) && self.dispatch_used
            == other.dispatch_used && self.dispatch_limit == other.dispatch_limit
            && self.runtime_reserved_ms == other.runtime_reserved_ms && self.runtime_limit_ms
            == other.runtime_limit_ms && self.reservation_ms == other.reservation_ms
    }
}

#[derive(Debug, Clone, PartialEq, Eq)]
pub struct PolicyPlanningSignalEventData {
    pub signal_id: String,
    pub instance_id: String,
    pub task_id: Option<String>,
    pub kind: PolicyPlanningSignalKind,
    pub fact_code: String,
    pub observed_at_unix_ms: u64,
    pub detection_budget: Option<PolicyDetectionBudgetRecord>,
}

/// The value of a signal.
pub struct SignalView {
    pub signal_id: Seq<char>,
    pub instance_id: Seq<char>,
    pub task_id: Option<Seq<char>>,
    pub kind: PolicyPlanningSignalKind,
    pub fact_code: Seq<char>,
    pub observed_at_unix_ms: u64,
    pub detection_budget: Option<BudgetView>,
}

pub open spec fn optional_budget(budget: Option<PolicyDetectionBudgetRecord>) -> Option<
    BudgetView,
> {
    match budget {
        Some(budget) => Some(budget@),
        None => None,
    }
}

impl View for PolicyPlanningSignalEventData {
    type V = SignalView;

    open spec fn view(&self) -> SignalView {
        SignalView {
            signal_id: self.signal_id@,
            instance_id: self.instance_id@,
            task_id: optional_text(self.task_id),
            kind: self.kind,
            fact_code: self.fact_code@,
            observed_at_unix_ms: self.observed_at_unix_ms,
            detection_budget: optional_budget(self.detection_budget),
        }
    }
}

impl PolicyPlanningSignalEventData {
    /// The same signal once more.
    pub fn copy(&self) -> (signal: Self)
        ensures
            signal@ == self@,
    {
        PolicyPlanningSignalEventData {
            signal_id: self.signal_id.clone(),
            instance_id: self.instance_id.clone(),
            task_id: copy_optional_text(&self.task_id),
            kind: self.kind,
            fact_code: self.fact_code.clone(),
            observed_at_unix_ms: self.observed_at_unix_ms,
            detection_budget: match &self.detection_budget {
                Some(budget) => Some(budget.copy()),
                None => None,
            },
        }
    }

    pub fn same(&self, other: &Self) -> (same: bool)
        ensures
            same == (self@ == other@),
    {
        let same_budget = match (&self.detection_budget, &other.detection_budget) {
            (Some(left), Some(right)) => left.same(right),
            (None, None) => true,
            _ => false,
        };
        same_budget && same_text(self.signal_id.as_str(), other.signal_id.as_str()) && same_text(
            self.instance_id.as_str(),
            other.instance_id.as_str(),
        ) && same_optional_text(&self.task_id, &other.task_id) && self.kind == other.kind
            && same_text(self.fact_code.as_str(), other.fact_code.as_str())
            && self.observed_at_unix_ms == other.observed_at_unix_ms
    }
}

/// What detection has taken of a window.
#[derive(Debug, Clone, Copy, PartialEq, Eq, Structural)]
pub struct DetectionQuotaUsage {
    pub dispatch_used: u32,
    pub runtime_reserved_ms: u64,
}

/// Nothing taken yet.
pub open spec fn no_usage() -> DetectionQuotaUsage {
    DetectionQuotaUsage { dispatch_used: 0, runtime_reserved_ms: 0 }
}

/// The windows in use. One evaluation refers to at most one window of each
/// instance, so that as many windows as instances are kept.
pub struct DetectionQuotaState {
    pub windows: OrderedMap<PairKey, DetectionQuotaUsage>,
    pub recency: VecDeque<PairKey>,
    pub max_windows: usize,
}

/// The value of the windows in use.
pub struct QuotaView {
    pub windows: Map<PairId, DetectionQuotaUsage>,
    /// The windows, the least recently used one first.
    pub recency: Seq<PairId>,
    pub max_windows: int,
}

pub open spec fn pair_ids(keys: Seq<PairKey>) -> Seq<PairId> {
    keys.map_values(|key: PairKey| key.id())
}

impl View for DetectionQuotaState {
    type V = QuotaView;

    open spec fn view(&self) -> QuotaView {
        QuotaView {
            windows: self.windows@,
            recency: pair_ids(self.recency@),
            max_windows: self.max_windows as int,
        }
    }
}

/// A list with a key moved to its end.
pub open spec fn moved_last(recency: Seq<PairId>, key: PairId) -> Seq<PairId> {
    if recency.contains(key) {
        recency.remove(recency.index_of(key)).push(key)
    } else {
        recency.push(key)
    }
}

/// The error of a signal that its budget contradicts.
pub open spec fn detection_error(code: &'static str) -> RuntimeHostError {
    policy_fatal(code, "commit_policy_detection_budget")
}

pub open spec fn is_detection(kind: PolicyPlanningSignalKind) -> bool {
    kind == PolicyPlanningSignalKind::DetectionReserved || kind
        == PolicyPlanningSignalKind::DetectionQuotaExhausted
}

/// What one more detection makes of a window's usage.
pub open spec fn next_usage(usage: DetectionQuotaUsage, reservation_ms: u64) -> Option<
    DetectionQuotaUsage,
> {
    if usage.dispatch_used == u32::MAX || usage.runtime_reserved_ms + reservation_ms > u64::MAX {
        None
    } else {
        Some(
            DetectionQuotaUsage {
                dispatch_used: (usage.dispatch_used + 1) as u32,
                runtime_reserved_ms: (usage.runtime_reserved_ms + reservation_ms) as u64,
            },
        )
    }
}

pub open spec fn usage_within(
    usage: DetectionQuotaUsage,
    dispatch_limit: u32,
    runtime_limit_ms: u64,
) -> bool {
    usage.dispatch_used <= dispatch_limit && usage.runtime_reserved_ms <= runtime_limit_ms
}

/// The reservation of one more detection, or the record that the window is
/// exhausted.
pub open spec fn reservation(
    usage: DetectionQuotaUsage,
    budget: DetectionBudget,
    catalog_hash: Seq<char>,
    profile_id: Seq<char>,
    window_id: Seq<char>,
) -> Result<(PolicyPlanningSignalKind, BudgetView), RuntimeHostError> {
    match next_usage(usage, budget.expected_duration_ms) {
        None => Err(
            policy_fatal("policy_detection_budget_overflow", "reserve_policy_detection_budget"),
        ),
        Some(next) => {
            let fits = usage_within(next, budget.window_dispatch_limit, budget.window_runtime_ms);
            let used = if fits {
                next
            } else {
                usage
            };
            Ok(
                (
                    if fits {
                        PolicyPlanningSignalKind::DetectionReserved
                    } else {
                        PolicyPlanningSignalKind::DetectionQuotaExhausted
                    },
                    BudgetView {
                        catalog_hash,
                        profile_id,
                        window_id,
                        dispatch_used: used.dispatch_used,
                        dispatch_limit: budget.window_dispatch_limit,
                        runtime_reserved_ms: used.runtime_reserved_ms,
                        runtime_limit_ms: budget.window_runtime_ms,
                        reservation_ms: budget.expected_duration_ms,
                    },
                ),
            )
        },
    }
}

impl QuotaView {
    /// Every window is listed once, and there are not too many.
    pub open spec fn wf(self) -> bool {
        &&& self.recency.no_duplicates()
        &&& self.windows.dom() =~= self.recency.to_set()
        &&& self.recency.len() <= self.max_windows
    }

    pub open spec fn usage(self, key: PairId) -> DetectionQuotaUsage {
        if self.windows.contains_key(key) {
            self.windows[key]
        } else {
            no_usage()
        }
    }

    /// A window was used.
    pub open spec fn touched(self, key: PairId) -> QuotaView {
        QuotaView { recency: moved_last(self.recency, key), ..self }
    }

    /// A window was used if it is known.
    pub open spec fn touched_if_known(self, key: PairId) -> QuotaView {
        if self.windows.contains_key(key) {
            self.touched(key)
        } else {
            self
        }
    }

    /// A window got a usage; the least recently used one made room for it.
    pub open spec fn cached(self, key: PairId, usage: DetectionQuotaUsage) -> QuotaView {
        let recency = moved_last(self.recency, key);
        let windows = self.windows.insert(key, usage);
        if recency.len() > self.max_windows {
            QuotaView {
                windows: windows.remove(recency[0]),
                recency: recency.skip(1),
                max_windows: self.max_windows,
            }
        } else {
            QuotaView { windows, recency, max_windows: self.max_windows }
        }
    }

    /// The state and the result after a signal was counted.
    pub open spec fn after_signal(self, data: SignalView) -> (QuotaView, Result<
        (),
        RuntimeHostError,
    >) {
        if !is_detection(data.kind) {
            if data.detection_budget is None {
                (self, Ok(()))
            } else {
                (self, Err(detection_error("policy_detection_budget_unexpected")))
            }
        } else if data.detection_budget is None {
            (self, Err(detection_error("policy_detection_budget_missing")))
        } else {
            let budget = data.detection_budget->0;
            let key = (data.instance_id, budget.window_id);
            let current = self.usage(key);
            let noted = self.touched_if_known(key);
            let claimed = DetectionQuotaUsage {
                dispatch_used: budget.dispatch_used,
                runtime_reserved_ms: budget.runtime_reserved_ms,
            };
            let next = next_usage(current, budget.reservation_ms);
            if data.kind == PolicyPlanningSignalKind::DetectionReserved {
                if next is None {
                    (noted, Err(detection_error("policy_detection_budget_overflow")))
                } else if claimed != next->0 || !usage_within(
                    claimed,
                    budget.dispatch_limit,
                    budget.runtime_limit_ms,
                ) {
                    (noted, Err(detection_error("policy_detection_budget_receipt_mismatch")))
                } else {
                    (noted.cached(key, claimed), Ok(()))
                }
            } else if claimed != current || (claimed.dispatch_used < budget.dispatch_limit
                && claimed.runtime_reserved_ms + budget.reservation_ms
                <= budget.runtime_limit_ms) {
                (noted, Err(detection_error("policy_detection_budget_receipt_mismatch")))
            } else {
                (noted, Ok(()))
            }
        }
    }
}

proof fn lemma_moved_last(recency: Seq<PairId>, key: PairId)
    requires
        recency.no_duplicates(),
    ensures
        moved_last(recency, key).no_duplicates(),
        moved_last(recency, key).to_set() =~= recency.to_set().insert(key),
        moved_last(recency, key).len() == recency.len() + if recency.contains(key) {
            0int
        } else {
            1
        },
        moved_last(recency, key).last() == key,
{
    let moved = moved_last(recency, key);
    if recency.contains(key) {
        let at = recency.index_of(key);
        let rest = recency.remove(at);
        assert forall|id: PairId| recency.contains(id) implies moved.contains(id) by {
            let i = recency.index_of(id);
            if i < at {
                assert(moved[i] == id);
            } else if i == at {
                assert(moved[rest.len() as int] == id);
            } else {
                assert(moved[i - 1] == id);
            }
        }
        assert forall|id: PairId| moved.contains(id) implies recency.contains(id) by {
            let i = moved.index_of(id);
            if i < at {
                assert(recency[i] == id);
            } else if i < rest.len() {
                assert(recency[i + 1] == id);
            }
        }
    } else {
        assert forall|id: PairId| recency.contains(id) implies moved.contains(id) by {
            assert(moved[recency.index_of(id)] == id);
        }
        assert(moved[recency.len() as int] == key);
        assert forall|id: PairId| moved.contains(id) implies recency.contains(id) || id == key by {
            let i = moved.index_of(id);
            if i < recency.len() {
                assert(recency[i] == id);
            }
        }
    }
}

/// Every step keeps the list of windows in line with the windows, and the
/// number of windows within its bound.
pub proof fn law_cache_stays_bounded(quota: QuotaView, key: PairId, usage: DetectionQuotaUsage)
    requires
        quota.wf(),
        quota.max_windows >= 0,
    ensures
        quota.cached(key, usage).wf(),
        quota.touched_if_known(key).wf(),
        quota.max_windows > 0 ==> quota.cached(key, usage).usage(key) == usage,
{
    lemma_moved_last(quota.recency, key);
    let recency = moved_last(quota.recency, key);
    if recency.len() > quota.max_windows {
        let rest = recency.skip(1);
        assert(rest.no_duplicates());
        assert forall|id: PairId| rest.contains(id) == (recency.contains(id) && id
            != recency[0]) by {
            if recency.contains(id) && id != recency[0] {
                let i = recency.index_of(id);
                assert(rest[i - 1] == id);
            }
            if rest.contains(id) {
                let i = rest.index_of(id);
                assert(recency[i + 1] == id);
            }
        }
        assert(quota.cached(key, usage).windows.dom() =~= rest.to_set());
        assert(recency.last() == key);
    }
}

/// The window that leaves is the one that was used least recently, and only
/// where there is no room.
pub proof fn law_least_recently_used_leaves(
    quota: QuotaView,
    key: PairId,
    usage: DetectionQuotaUsage,
    other: PairId,
)
    requires
        quota.wf(),
        quota.max_windows > 0,
        quota.windows.contains_key(other),
        other != key,
        !quota.cached(key, usage).windows.contains_key(other),
    ensures
        other == quota.recency[0],
        quota.recency.len() == quota.max_windows,
        !quota.windows.contains_key(key),
{
    lemma_moved_last(quota.recency, key);
    let recency = moved_last(quota.recency, key);
    assert(quota.recency.contains(other));
    if quota.recency.contains(key) {
        assert(recency.len() <= quota.max_windows);
    } else {
        assert(recency[0] == quota.recency[0]);
    }
}

/// No reservation goes over the budget of its window, and counting the signal
/// made from it succeeds.
pub proof fn law_reservation_is_within_budget(
    quota: QuotaView,
    budget: DetectionBudget,
    catalog_hash: Seq<char>,
    profile_id: Seq<char>,
    window_id: Seq<char>,
    signal: SignalView,
)
    requires
        ({
            let made = reservation(
                quota.usage((signal.instance_id, window_id)),
                budget,
                catalog_hash,
                profile_id,
                window_id,
            );
            made is Ok && signal.kind == made->Ok_0.0 && signal.detection_budget == Some(
                made->Ok_0.1,
            )
        }),
    ensures
        quota.after_signal(signal).1 is Ok,
        signal.kind == PolicyPlanningSignalKind::DetectionReserved ==> {
            &&& signal.detection_budget->0.dispatch_used <= budget.window_dispatch_limit
            &&& signal.detection_budget->0.runtime_reserved_ms <= budget.window_runtime_ms
        },
{
}

impl DetectionQuotaState {
    pub open spec fn wf(&self) -> bool {
        self.windows.wf() && self@.wf()
    }

    pub fn new(max_windows: usize) -> (state: Self)
        ensures
            state.wf(),
            state@ == (QuotaView {
                windows: Map::empty(),
                recency: Seq::empty(),
                max_windows: max_windows as int,
            }),
    {
        let state = DetectionQuotaState {
            windows: OrderedMap::new(),
            recency: VecDeque::new(),
            max_windows,
        };
        assert(state@.recency =~= Seq::empty());
        assert(state@.windows.dom() =~= state@.recency.to_set());
        state
    }

    /// The same state once more.
    pub fn copy(&self) -> (state: Self)
        requires
            self.wf(),
        ensures
            state.wf(),
            state@ == self@,
    {
        let mut windows: OrderedMap<PairKey, DetectionQuotaUsage> = OrderedMap::new();
        let mut index: usize = 0;
        while index < self.windows.entries.len()
            invariant
                index <= self.windows.entries.len(),
                windows.entries@.len() == index,
                forall|i: int|
                    0 <= i < index ==> (#[trigger] windows.entries@[i]).0.id()
                        == self.windows.entries@[i].0.id() && windows.entries@[i].1
                        == self.windows.entries@[i].1,
            decreases self.windows.entries.len() - index,
        {
            let entry = &self.windows.entries[index];
            windows.entries.push((pair_key(&entry.0.0, &entry.0.1), entry.1));
            index += 1;
        }
        proof {
            assert(windows.keys() =~= self.windows.keys());
            lemma_same_entries(windows.entries@, self.windows.entries@);
        }
        let mut recency: VecDeque<PairKey> = VecDeque::new();
        let mut index: usize = 0;
        while index < self.recency.len()
            invariant
                index <= self.recency.len(),
                recency@.len() == index,
                forall|i: int|
                    0 <= i < index ==> (#[trigger] recency@[i]).id() == self.recency@[i].id(),
            decreases self.recency.len() - index,
        {
            let key = &self.recency[index];
            recency.push_back(pair_key(&key.0, &key.1));
            index += 1;
        }
        assert(pair_ids(recency@) =~= pair_ids(self.recency@));
        DetectionQuotaState { windows, recency, max_windows: self.max_windows }
    }

    /// Marks a window as used just now.
    pub fn touch(&mut self, key: &PairKey)
        requires
            old(self)@.recency.no_duplicates(),
        ensures
            final(self)@ == old(self)@.touched(key.id()),
            final(self).windows == old(self).windows,
            old(self).wf() && old(self)@.windows.contains_key(key.id()) ==> final(self).wf(),
    {
        let ghost ids = self@.recency;
        let mut index: usize = 0;
        while index < self.recency.len()
            invariant
                index <= self.recency.len(),
                *self == *old(self),
                ids == pair_ids(self.recency@),
                ids.no_duplicates(),
                forall|i: int| 0 <= i < index ==> ids[i] != key.id(),
            decreases self.recency.len() - index,
        {
            let known = &self.recency[index];
            assert(ids[index as int] == known.id());
            if same_text(known.0.as_str(), key.0.as_str()) && same_text(
                known.1.as_str(),
                key.1.as_str(),
            ) {
                let _ = self.recency.remove(index);
                self.recency.push_back(pair_key(&key.0, &key.1));
                proof {
                    let at = ids.index_of(key.id());
                    assert(ids[at] == key.id());
                    assert(ids[index as int] == key.id());
                    assert(at == index);
                    lemma_moved_last(ids, key.id());
                    assert(pair_ids(self.recency@) =~= moved_last(ids, key.id()));
                    if old(self).wf() && old(self)@.windows.contains_key(key.id()) {
                        assert(ids.to_set().insert(key.id()) =~= ids.to_set());
                    }
                }
                return;
            }
            index += 1;
        }
        self.recency.push_back(pair_key(&key.0, &key.1));
        proof {
            assert(!ids.contains(key.id()));
            assert(pair_ids(self.recency@) =~= moved_last(ids, key.id()));
            if old(self).wf() && old(self)@.windows.contains_key(key.id()) {
                assert(ids.to_set().contains(key.id()));
            }
        }
    }

    /// Remembers the usage of a window.
    pub fn cache_usage(&mut self, key: PairKey, usage: DetectionQuotaUsage) -> (result:
        RuntimeHostResult<()>)
        requires
            old(self).wf(),
        ensures
            result == Ok::<(), RuntimeHostError>(()),
            final(self).wf(),
            final(self)@ == old(self)@.cached(key.id(), usage),
    {
        let ghost before = self@;
        let copy = pair_key(&key.0, &key.1);
        self.windows.insert(key, usage);
        self.touch(&copy);
        let ghost recency = moved_last(before.recency, key.id());
        proof {
            lemma_moved_last(before.recency, key.id());
            law_cache_stays_bounded(before, key.id(), usage);
            lemma_keys_are_domain(self.windows);
            assert(self@.windows.dom() =~= recency.to_set());
            recency.unique_seq_to_set();
        }
        if self.windows.len() > self.max_windows {
            match self.recency.pop_front() {
                None => {
                    return Err(
                        fatal(
                            "policy_detection_quota_cache_invariant",
                            "cache_policy_detection_quota",
                        ),
                    );
                },
                Some(oldest) => {
                    assert(oldest.id() == recency[0]);
                    assert(recency.to_set().contains(recency[0]));
                    if self.windows.remove(&oldest).is_none() {
                        return Err(
                            fatal(
                                "policy_detection_quota_cache_invariant",
                                "cache_policy_detection_quota",
                            ),
                        );
                    }
                    assert(self@.recency =~= recency.skip(1));
                },
            }
        }
        assert(self@ == before.cached(key.id(), usage));
        Ok(())
    }

    /// Reserves one more detection in the open window of a profile, or says
    /// that the window is exhausted. Nothing is counted yet.
    pub fn preview(
        &mut self,
        profile: &ActivityProfile,
        catalog_hash: &str,
        instance_id: &str,
        now_unix_ms: u64,
    ) -> (result: RuntimeHostResult<(PolicyPlanningSignalKind, PolicyDetectionBudgetRecord)>)
        requires
            old(self).wf(),
        ensures
            final(self).wf(),
            match open_window(*profile, now_unix_ms) {
                None => final(self)@ == old(self)@ && (result matches Err(error) && error
                    == window_closed()),
                Some((day, index)) => {
                    let window_id = window_name(profile.id@, day, index);
                    let key = (instance_id@, window_id);
                    &&& final(self)@ == old(self)@.touched_if_known(key)
                    &&& match reservation(
                        old(self)@.usage(key),
                        profile.detection_budget,
                        catalog_hash@,
                        profile.id@,
                        window_id,
                    ) {
                        Ok((kind, budget)) => result matches Ok(made) && made.0 == kind && made.1@
                            == budget,
                        Err(error) => result matches Err(actual) && actual == error,
                    }
                },
            },
    {
        let (_, window_id) = active_activity_window(profile, now_unix_ms)?;
        let key = (instance_id.to_owned(), window_id.clone());
        let usage: DetectionQuotaUsage = self.usage_of(&key);
        let (next_dispatch, next_runtime) = match (
            usage.dispatch_used.checked_add(1),
            usage.runtime_reserved_ms.checked_add(profile.detection_budget.expected_duration_ms),
        ) {
            (Some(dispatch), Some(runtime)) => (dispatch, runtime),
            _ => {
                return Err(
                    fatal("policy_detection_budget_overflow", "reserve_policy_detection_budget"),
                );
            },
        };
        let exhausted = next_dispatch > profile.detection_budget.window_dispatch_limit
            || next_runtime > profile.detection_budget.window_runtime_ms;
        let kind = if exhausted {
            PolicyPlanningSignalKind::DetectionQuotaExhausted
        } else {
            PolicyPlanningSignalKind::DetectionReserved
        };
        Ok(
            (
                kind,
                PolicyDetectionBudgetRecord {
                    catalog_hash: catalog_hash.to_owned(),
                    profile_id: profile.id.clone(),
                    window_id,
                    dispatch_used: if exhausted {
                        usage.dispatch_used
                    } else {
                        next_dispatch
                    },
                    dispatch_limit: profile.detection_budget.window_dispatch_limit,
                    runtime_reserved_ms: if exhausted {
                        usage.runtime_reserved_ms
                    } else {
                        next_runtime
                    },
                    runtime_limit_ms: profile.detection_budget.window_runtime_ms,
                    reservation_ms: profile.detection_budget.expected_duration_ms,
                },
            ),
        )
    }

    /// The usage of a window, which thereby counts as used if it is known.
    fn usage_of(&mut self, key: &PairKey) -> (usage: DetectionQuotaUsage)
        requires
            old(self).wf(),
        ensures
            final(self).wf(),
            final(self)@ == old(self)@.touched_if_known(key.id()),
            usage == old(self)@.usage(key.id()),
    {
        let usage: Option<DetectionQuotaUsage> = match self.windows.get(key) {
            Some(usage) => Some(*usage),
            None => None,
        };
        match usage {
            Some(usage) => {
                self.touch(key);
                usage
            },
            None => DetectionQuotaUsage { dispatch_used: 0, runtime_reserved_ms: 0 },
        }
    }

    /// Counts a signal. What it claims must follow from what is known of its
    /// window.
    pub fn commit_signal(&mut self, data: &PolicyPlanningSignalEventData) -> (result:
        RuntimeHostResult<()>)
        requires
            old(self).wf(),
        ensures
            final(self).wf(),
            (final(self)@, result) == old(self)@.after_signal(data@),
    {
        let reserved = data.kind == PolicyPlanningSignalKind::DetectionReserved;
        let exhausted = data.kind == PolicyPlanningSignalKind::DetectionQuotaExhausted;
        let budget = match &data.detection_budget {
            Some(budget) => {
                if !reserved && !exhausted {
                    return Err(
                        fatal(
                            "policy_detection_budget_unexpected",
                            "commit_policy_detection_budget",
                        ),
                    );
                }
                budget
            },
            None => {
                if !reserved && !exhausted {
                    return Ok(());
                }
                return Err(
                    fatal("policy_detection_budget_missing", "commit_policy_detection_budget"),
                );
            },
        };
        let key = pair_key(&data.instance_id, &budget.window_id);
        let current = self.usage_of(&key);
        if reserved {
            let (expected_dispatch, expected_runtime) = match (
                current.dispatch_used.checked_add(1),
                current.runtime_reserved_ms.checked_add(budget.reservation_ms),
            ) {
                (Some(dispatch), Some(runtime)) => (dispatch, runtime),
                _ => {
                    return Err(
                        fatal("policy_detection_budget_overflow", "commit_policy_detection_budget"),
                    );
                },
            };
            if budget.dispatch_used != expected_dispatch || budget.runtime_reserved_ms
                != expected_runtime || budget.dispatch_used > budget.dispatch_limit
                || budget.runtime_reserved_ms > budget.runtime_limit_ms {
                return Err(
                    fatal(
                        "policy_detection_budget_receipt_mismatch",
                        "commit_policy_detection_budget",
                    ),
                );
            }
            return self.cache_usage(
                key,
                DetectionQuotaUsage {
                    dispatch_used: budget.dispatch_used,
                    runtime_reserved_ms: budget.runtime_reserved_ms,
                },
            );
        }
        let fits = match budget.runtime_reserved_ms.checked_add(budget.reservation_ms) {
            Some(next) => next <= budget.runtime_limit_ms,
            None => false,
        };
        if budget.dispatch_used != current.dispatch_used || budget.runtime_reserved_ms
            != current.runtime_reserved_ms || (budget.dispatch_used < budget.dispatch_limit
            && fits) {
            return Err(
                fatal("policy_detection_budget_receipt_mismatch", "commit_policy_detection_budget"),
            );
        }
        Ok(())
    }
}

/// A reservation is given exactly where one more dispatch and its expected
/// runtime fit what is left of the window. What is given counts one more use
/// and so much more runtime; what is refused leaves the window as it is and
/// says that it is exhausted.
pub proof fn law_reservation_is_given_while_it_fits(
    usage: DetectionQuotaUsage,
    budget: DetectionBudget,
    catalog_hash: Seq<char>,
    profile_id: Seq<char>,
    window_id: Seq<char>,
)
    requires
        usage.dispatch_used < u32::MAX,
        usage.runtime_reserved_ms + budget.expected_duration_ms <= u64::MAX,
    ensures
        ({
            let made = reservation(usage, budget, catalog_hash, profile_id, window_id);
            let fits = usage.dispatch_used < budget.window_dispatch_limit
                && usage.runtime_reserved_ms + budget.expected_duration_ms
                <= budget.window_runtime_ms;
            &&& made is Ok
            &&& made->Ok_0.0 == PolicyPlanningSignalKind::DetectionReserved <==> fits
            &&& made->Ok_0.0 == PolicyPlanningSignalKind::DetectionQuotaExhausted <==> !fits
            &&& made->Ok_0.1.dispatch_used == usage.dispatch_used + if fits {
                1int
            } else {
                0
            }
            &&& made->Ok_0.1.runtime_reserved_ms == usage.runtime_reserved_ms + if fits {
                budget.expected_duration_ms as int
            } else {
                0
            }
            &&& made->Ok_0.1.dispatch_limit == budget.window_dispatch_limit
            &&& made->Ok_0.1.runtime_limit_ms == budget.window_runtime_ms
            &&& made->Ok_0.1.reservation_ms == budget.expected_duration_ms
            &&& made->Ok_0.1.catalog_hash == catalog_hash && made->Ok_0.1.profile_id == profile_id
                && made->Ok_0.1.window_id == window_id
        }),
{
}

/// A reserved signal counts exactly where its receipt is what the window's use
/// comes to with it and stays within its limits; the window's use is then that
/// of the receipt. A signal of an exhausted window counts exactly where its
/// receipt is the window's use and nothing more would fit; it changes no use.
pub proof fn law_receipt_must_match_the_window(quota: QuotaView, data: SignalView)
    requires
        quota.wf(),
        quota.max_windows > 0,
        data.detection_budget is Some,
        is_detection(data.kind),
    ensures
        ({
            let budget = data.detection_budget->0;
            let key = (data.instance_id, budget.window_id);
            let before = quota.usage(key);
            let (after, result) = quota.after_signal(data);
            &&& data.kind == PolicyPlanningSignalKind::DetectionReserved ==> {
                &&& result is Ok <==> {
                    &&& budget.dispatch_used == before.dispatch_used + 1
                    &&& budget.runtime_reserved_ms == before.runtime_reserved_ms
                        + budget.reservation_ms
                    &&& budget.dispatch_used <= budget.dispatch_limit
                    &&& budget.runtime_reserved_ms <= budget.runtime_limit_ms
                }
                &&& result is Ok ==> after.usage(key).dispatch_used == budget.dispatch_used
                    && after.usage(key).runtime_reserved_ms == budget.runtime_reserved_ms
            }
            &&& data.kind == PolicyPlanningSignalKind::DetectionQuotaExhausted ==> {
                &&& result is Ok <==> {
                    &&& budget.dispatch_used == before.dispatch_used
                    &&& budget.runtime_reserved_ms == before.runtime_reserved_ms
                    &&& budget.dispatch_used >= budget.dispatch_limit || budget.runtime_reserved_ms
                        + budget.reservation_ms > budget.runtime_limit_ms
                }
                &&& after.usage(key) == before
            }
        }),
{
    let budget = data.detection_budget->0;
    let key = (data.instance_id, budget.window_id);
    let claimed = DetectionQuotaUsage {
        dispatch_used: budget.dispatch_used,
        runtime_reserved_ms: budget.runtime_reserved_ms,
    };
    law_cache_stays_bounded(quota, key, claimed);
    law_cache_stays_bounded(quota.touched_if_known(key), key, claimed);
}

/// Only signals of detection carry a budget, and all of them do.
pub proof fn law_only_detection_carries_a_budget(quota: QuotaView, data: SignalView)
    requires
        is_detection(data.kind) != (data.detection_budget is Some),
    ensures
        quota.after_signal(data).1 is Err,
        quota.after_signal(data).0 == quota,
{
}

/// The window that was used last is the last of the list, and the others keep
/// their order.
pub proof fn law_used_window_is_the_most_recent(quota: QuotaView, key: PairId)
    requires
        quota.wf(),
        quota.windows.contains_key(key),
    ensures
        quota.touched_if_known(key).recency.last() == key,
        quota.touched_if_known(key).recency.len() == quota.recency.len(),
        quota.touched_if_known(key).recency.drop_last() =~= quota.recency.remove(
            quota.recency.index_of(key),
        ),
        quota.touched_if_known(key).windows == quota.windows,
{
    assert(quota.recency.contains(key));
}

/// What is counted for a window that is known, or for which there is room,
/// leaves the use of every other window as it is.
pub proof fn law_windows_do_not_share_their_use(
    quota: QuotaView,
    key: PairId,
    usage: DetectionQuotaUsage,
    other: PairId,
)
    requires
        quota.wf(),
        quota.windows.contains_key(key) || quota.recency.len() < quota.max_windows,
        other != key,
    ensures
        quota.cached(key, usage).usage(other) == quota.usage(other),
        quota.cached(key, usage).usage(key) == usage,
{
    lemma_moved_last(quota.recency, key);
    if quota.windows.contains_key(key) {
        assert(quota.recency.contains(key));
    } else if quota.recency.contains(key) {
        assert(quota.windows.dom().contains(key));
    }
}

} // verus!
