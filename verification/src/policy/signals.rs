//! Planning signals: which are due, what is stored of them, and how a restart
//! counts them again.

use vstd::prelude::*;
use vstd::string::StringExecFns;

use crate::digest::{
    hex_text, join_with_zero, sha256_hex, sha256_of, slices, zero_joined,
};
use crate::error::{RuntimeHostError, RuntimeHostResult};
use crate::ordered_map::{OrderedKey, OrderedMap};
use crate::policy::activity::{
    active_activity_window, law_first_open_window_counts, open_day, open_window, window_name,
};
use crate::policy::catalog::{
    fatal, policy_fatal, profile_named, ActivityProfile, ScopeSelector,
};
use crate::policy::control::{PairId, PairKey};
use crate::policy::detection::{DetectionQuotaUsage, PolicyPlanningSignalEventData, SignalView};
use crate::policy::generation::CatalogShelf;
use crate::search::lemma_position;
use crate::text::{same_text, utf8};

verus! {

pub const PLANNING_SIGNAL_PROJECTION_NAMESPACE: &'static str = "policy.planning-signal.v1";

pub const DETECTION_QUOTA_PROJECTION_NAMESPACE: &'static str = "policy.detection-quota.v1";

pub const PLANNING_SIGNAL_CHECKPOINT_KEY: &'static str = "checkpoint";

pub const PLANNING_SIGNAL_PROJECTION_SCHEMA: &'static str = "actingcommand.policy-planning-signal.v1";

pub const DETECTION_QUOTA_PROJECTION_SCHEMA: &'static str = "actingcommand.policy-detection-quota.v1";

/// Under which key a signal is stored.
pub fn planning_signal_projection_key(signal_id: &str) -> (key: String)
    ensures
        key@ == hex_text(sha256_of(utf8(signal_id@))),
{
    sha256_hex(signal_id.as_bytes())
}

/// Under which key the usage of a window is stored.
pub fn detection_quota_projection_key(instance_id: &str, window_id: &str) -> (key: String)
    ensures
        key@ == hex_text(sha256_of(zero_joined(instance_id@, seq![window_id@]))),
{
    let mut rest: Vec<&str> = Vec::new();
    rest.push(window_id);
    assert(slices(rest@) =~= seq![window_id@]);
    sha256_hex(join_with_zero(instance_id, &rest).as_slice())
}

/// The name of a scope.
pub open spec fn scope_name(scope: ScopeSelector) -> Seq<char> {
    match scope {
        ScopeSelector::Instance { instance_id } => "instance:"@ + instance_id@,
        ScopeSelector::Server { server_id } => "server:"@ + server_id@,
        ScopeSelector::Game { game_id } => "game:"@ + game_id@,
    }
}

pub fn scope_identity(scope: &ScopeSelector) -> (name: String)
    ensures
        name@ == scope_name(*scope),
{
    let (mut name, id) = match scope {
        ScopeSelector::Instance { instance_id } => ("instance:".to_owned(), instance_id),
        ScopeSelector::Server { server_id } => ("server:".to_owned(), server_id),
        ScopeSelector::Game { game_id } => ("game:".to_owned(), game_id),
    };
    name.append(id.as_str());
    name
}

/// The id of a detection signal with what it is made of.
pub open spec fn signal_name(kind: Seq<char>, components: Seq<Seq<char>>) -> Seq<char> {
    "signal:detection:"@ + kind + ":"@ + hex_text(sha256_of(zero_joined(kind, components)))
}

pub fn detection_signal_id(kind: &str, components: &Vec<&str>) -> (id: String)
    ensures
        id@ == signal_name(kind@, slices(components@)),
{
    let digest = sha256_hex(join_with_zero(kind, components).as_slice());
    let mut id = "signal:detection:".to_owned();
    id.append(kind);
    id.append(":");
    id.append(digest.as_str());
    id
}

/// A signal as it is stored.
#[derive(Debug, Clone)]
pub struct StoredPlanningSignal {
    pub schema_version: String,
    pub signal: PolicyPlanningSignalEventData,
}

/// A decoded signal is the one that was asked for.
pub fn accept_stored_signal(stored: Option<StoredPlanningSignal>, signal_id: &str) -> (result:
    RuntimeHostResult<PolicyPlanningSignalEventData>)
    ensures
        match stored {
            Some(stored) => if stored.schema_version@ == PLANNING_SIGNAL_PROJECTION_SCHEMA@
                && stored.signal.signal_id@ == signal_id@ {
                result matches Ok(signal) && signal == stored.signal
            } else {
                result matches Err(error) && error == policy_fatal(
                    "policy_planning_signal_projection_invalid",
                    "load_policy_planning_signal",
                )
            },
            None => result matches Err(error) && error == policy_fatal(
                "policy_planning_signal_projection_invalid",
                "load_policy_planning_signal",
            ),
        },
{
    if let Some(stored) = stored {
        if same_text(stored.schema_version.as_str(), PLANNING_SIGNAL_PROJECTION_SCHEMA)
            && same_text(stored.signal.signal_id.as_str(), signal_id) {
            return Ok(stored.signal);
        }
    }
    Err(fatal("policy_planning_signal_projection_invalid", "load_policy_planning_signal"))
}

/// The usage of a window as it is stored.
#[derive(Debug, Clone)]
pub struct StoredDetectionQuota {
    pub schema_version: String,
    pub instance_id: String,
    pub window_id: String,
    pub dispatch_used: u32,
    pub runtime_reserved_ms: u64,
}

/// A decoded usage is that of the window that was asked for.
pub fn accept_stored_quota(
    stored: Option<StoredDetectionQuota>,
    instance_id: &str,
    window_id: &str,
) -> (result: RuntimeHostResult<DetectionQuotaUsage>)
    ensures
        match stored {
            Some(stored) => if stored.schema_version@ == DETECTION_QUOTA_PROJECTION_SCHEMA@
                && stored.instance_id@ == instance_id@ && stored.window_id@ == window_id@ {
                result matches Ok(usage) && usage == (DetectionQuotaUsage {
                    dispatch_used: stored.dispatch_used,
                    runtime_reserved_ms: stored.runtime_reserved_ms,
                })
            } else {
                result matches Err(error) && error == policy_fatal(
                    "policy_detection_quota_projection_invalid",
                    "load_policy_detection_quota",
                )
            },
            None => result matches Err(error) && error == policy_fatal(
                "policy_detection_quota_projection_invalid",
                "load_policy_detection_quota",
            ),
        },
{
    if let Some(stored) = stored {
        if same_text(stored.schema_version.as_str(), DETECTION_QUOTA_PROJECTION_SCHEMA)
            && same_text(stored.instance_id.as_str(), instance_id) && same_text(
            stored.window_id.as_str(),
            window_id,
        ) {
            return Ok(
                DetectionQuotaUsage {
                    dispatch_used: stored.dispatch_used,
                    runtime_reserved_ms: stored.runtime_reserved_ms,
                },
            );
        }
    }
    Err(fatal("policy_detection_quota_projection_invalid", "load_policy_detection_quota"))
}

/// The checkpoint as it is stored.
#[derive(Debug, Clone)]
pub struct PlanningSignalCheckpoint {
    pub schema_version: String,
    pub through_sequence: u64,
}

/// A decoded checkpoint names the entry that it was stored with.
pub fn accept_stored_checkpoint(
    stored: Option<PlanningSignalCheckpoint>,
    ledger_sequence: u64,
) -> (result: RuntimeHostResult<u64>)
    ensures
        match stored {
            Some(stored) => if stored.schema_version@ == PLANNING_SIGNAL_PROJECTION_SCHEMA@
                && stored.through_sequence == ledger_sequence {
                result matches Ok(sequence) && sequence == ledger_sequence
            } else {
                result matches Err(error) && error == policy_fatal(
                    "policy_planning_checkpoint_invalid",
                    "load_policy_planning_checkpoint",
                )
            },
            None => result matches Err(error) && error == policy_fatal(
                "policy_planning_checkpoint_invalid",
                "load_policy_planning_checkpoint",
            ),
        },
{
    if let Some(stored) = stored {
        if same_text(stored.schema_version.as_str(), PLANNING_SIGNAL_PROJECTION_SCHEMA)
            && stored.through_sequence == ledger_sequence {
            return Ok(ledger_sequence);
        }
    }
    Err(fatal("policy_planning_checkpoint_invalid", "load_policy_planning_checkpoint"))
}

/// What is stored of the planning signals, each entry with the sequence of the
/// event that it comes from.
pub struct PlanningProjections {
    pub signals: OrderedMap<String, (u64, PolicyPlanningSignalEventData)>,
    pub quotas: OrderedMap<PairKey, (u64, DetectionQuotaUsage)>,
    pub checkpoint: Option<u64>,
}

/// The value of what is stored.
pub struct ProjectionsView {
    pub signals: Map<Seq<char>, (u64, SignalView)>,
    pub quotas: Map<PairId, (u64, DetectionQuotaUsage)>,
    pub checkpoint: Option<u64>,
}

impl View for PlanningProjections {
    type V = ProjectionsView;

    open spec fn view(&self) -> ProjectionsView {
        ProjectionsView {
            signals: self.signals@.map_values(
                |entry: (u64, PolicyPlanningSignalEventData)| (entry.0, entry.1@),
            ),
            quotas: self.quotas@,
            checkpoint: self.checkpoint,
        }
    }
}

impl ProjectionsView {
    /// The state and the result after a signal was stored.
    pub open spec fn with_signal(self, sequence: u64, data: SignalView) -> (
        ProjectionsView,
        Result<(), RuntimeHostError>,
    ) {
        if self.signals.contains_key(data.signal_id) {
            if self.signals[data.signal_id] != (sequence, data) {
                (
                    self,
                    Err(
                        policy_fatal(
                            "policy_planning_signal_identity_conflict",
                            "persist_policy_planning_signal",
                        ),
                    ),
                )
            } else {
                (self, Ok(()))
            }
        } else {
            (
                ProjectionsView {
                    signals: self.signals.insert(data.signal_id, (sequence, data)),
                    ..self
                },
                Ok(()),
            )
        }
    }

    /// The state and the result after a usage was stored.
    pub open spec fn with_quota(self, sequence: u64, key: PairId, usage: DetectionQuotaUsage) -> (
        ProjectionsView,
        Result<(), RuntimeHostError>,
    ) {
        let stored = self.quotas[key];
        if self.quotas.contains_key(key) && (stored.0 > sequence || (stored.0 == sequence
            && stored.1 != usage)) {
            (
                self,
                Err(
                    policy_fatal(
                        "policy_detection_quota_projection_conflict",
                        "persist_policy_detection_quota",
                    ),
                ),
            )
        } else if self.quotas.contains_key(key) && stored.0 == sequence {
            (self, Ok(()))
        } else {
            (
                ProjectionsView { quotas: self.quotas.insert(key, (sequence, usage)), ..self },
                Ok(()),
            )
        }
    }

    /// The state and the result after a checkpoint was stored.
    pub open spec fn with_checkpoint(self, through_sequence: u64) -> (
        ProjectionsView,
        Result<(), RuntimeHostError>,
    ) {
        if self.checkpoint is Some && self.checkpoint->0 > through_sequence {
            (
                self,
                Err(
                    policy_fatal(
                        "policy_planning_checkpoint_ahead",
                        "persist_policy_planning_checkpoint",
                    ),
                ),
            )
        } else {
            (ProjectionsView { checkpoint: Some(through_sequence), ..self }, Ok(()))
        }
    }
}

impl PlanningProjections {
    pub open spec fn wf(&self) -> bool {
        self.signals.wf() && self.quotas.wf()
    }

    pub fn new() -> (projections: Self)
        ensures
            projections.wf(),
            projections@ == (ProjectionsView {
                signals: Map::empty(),
                quotas: Map::empty(),
                checkpoint: None,
            }),
    {
        let projections = PlanningProjections {
            signals: OrderedMap::new(),
            quotas: OrderedMap::new(),
            checkpoint: None,
        };
        assert(projections@.signals =~= Map::empty());
        projections
    }

    pub fn load_planning_signal(&self, signal_id: &String) -> (entry: Option<
        &(u64, PolicyPlanningSignalEventData),
    >)
        requires
            self.wf(),
        ensures
            match entry {
                Some(entry) => self@.signals.contains_key(signal_id@) && (entry.0, entry.1@)
                    == self@.signals[signal_id@],
                None => !self@.signals.contains_key(signal_id@),
            },
    {
        self.signals.get(signal_id)
    }

    pub fn load_detection_quota(&self, key: &PairKey) -> (entry: Option<(u64, DetectionQuotaUsage)>)
        requires
            self.wf(),
        ensures
            match entry {
                Some(entry) => self@.quotas.contains_key(key.id()) && entry == self@.quotas[key.id()],
                None => !self@.quotas.contains_key(key.id()),
            },
    {
        match self.quotas.get(key) {
            Some(entry) => Some(*entry),
            None => None,
        }
    }

    /// Stores a signal. Storing it again changes nothing.
    pub fn persist_planning_signal(&mut self, sequence: u64, data: &PolicyPlanningSignalEventData) -> (result:
        RuntimeHostResult<()>)
        requires
            old(self).wf(),
        ensures
            final(self).wf(),
            (final(self)@, result) == old(self)@.with_signal(sequence, data@),
    {
        if let Some(existing) = self.load_planning_signal(&data.signal_id) {
            if existing.0 != sequence || !existing.1.same(data) {
                return Err(
                    fatal(
                        "policy_planning_signal_identity_conflict",
                        "persist_policy_planning_signal",
                    ),
                );
            }
            return Ok(());
        }
        self.signals.insert(data.signal_id.clone(), (sequence, data.copy()));
        assert(self@.signals =~= old(self)@.signals.insert(data.signal_id@, (sequence, data@)));
        Ok(())
    }

    /// Stores the usage of a window. Nothing older replaces it.
    pub fn persist_detection_quota(
        &mut self,
        sequence: u64,
        key: PairKey,
        usage: DetectionQuotaUsage,
    ) -> (result: RuntimeHostResult<()>)
        requires
            old(self).wf(),
        ensures
            final(self).wf(),
            (final(self)@, result) == old(self)@.with_quota(sequence, key.id(), usage),
    {
        if let Some((existing_sequence, existing)) = self.load_detection_quota(&key) {
            if existing_sequence > sequence || (existing_sequence == sequence && existing
                != usage) {
                return Err(
                    fatal(
                        "policy_detection_quota_projection_conflict",
                        "persist_policy_detection_quota",
                    ),
                );
            }
            if existing_sequence == sequence {
                return Ok(());
            }
        }
        self.quotas.insert(key, (sequence, usage));
        Ok(())
    }

    /// Stores how far the signals have been counted. It never goes back.
    pub fn persist_planning_checkpoint(&mut self, through_sequence: u64) -> (result:
        RuntimeHostResult<()>)
        requires
            old(self).wf(),
        ensures
            final(self).wf(),
            (final(self)@, result) == old(self)@.with_checkpoint(through_sequence),
    {
        if let Some(existing) = self.checkpoint {
            if existing > through_sequence {
                return Err(
                    fatal("policy_planning_checkpoint_ahead", "persist_policy_planning_checkpoint"),
                );
            }
        }
        self.checkpoint = Some(through_sequence);
        Ok(())
    }
}

/// The error of a signal whose budget does not fit the catalog it names.
pub open spec fn signal_error(shelf: CatalogShelf, data: SignalView) -> Option<RuntimeHostError> {
    let mismatch = policy_fatal(
        "policy_detection_budget_profile_mismatch",
        "validate_policy_detection_budget",
    );
    match data.detection_budget {
        None => None,
        Some(budget) => match shelf.lookup(budget.catalog_hash) {
            Err(error) => Some(error),
            Ok(catalog) => match catalog.compiled.profile_position(budget.profile_id) {
                None => Some(mismatch),
                Some(index) => {
                    let profile = catalog.compiled.profiles@[index];
                    match open_window(profile, data.observed_at_unix_ms) {
                        None => Some(
                            policy_fatal(
                                "policy_detection_budget_window_mismatch",
                                "validate_policy_detection_budget",
                            ),
                        ),
                        Some((day, window)) => if (profile.scope
                            matches ScopeSelector::Instance { instance_id } && instance_id@
                            != data.instance_id) || budget.window_id != window_name(
                            profile.id@,
                            day,
                            window,
                        ) || budget.dispatch_limit
                            != profile.detection_budget.window_dispatch_limit
                            || budget.runtime_limit_ms != profile.detection_budget.window_runtime_ms
                            || budget.reservation_ms
                            != profile.detection_budget.expected_duration_ms {
                            Some(mismatch)
                        } else {
                            None
                        },
                    }
                },
            },
        },
    }
}

/// A signal's budget must be the one that its profile gives its window.
pub fn validate_planning_signal(shelf: &CatalogShelf, data: &PolicyPlanningSignalEventData) -> (result:
    RuntimeHostResult<()>)
    requires
        shelf.wf(),
    ensures
        match signal_error(*shelf, data@) {
            Some(error) => result == Err::<(), _>(error),
            None => result == Ok::<(), RuntimeHostError>(()),
        },
{
    let budget = match &data.detection_budget {
        Some(budget) => budget,
        None => {
            return Ok(());
        },
    };
    let catalog = shelf.load_generation(budget.catalog_hash.as_str())?;
    let profile = match catalog.compiled.find_profile(budget.profile_id.as_str()) {
        Some(index) => &catalog.compiled.profiles[index],
        None => {
            return Err(
                fatal(
                    "policy_detection_budget_profile_mismatch",
                    "validate_policy_detection_budget",
                ),
            );
        },
    };
    let expected_window_id = match active_activity_window(profile, data.observed_at_unix_ms) {
        Ok((_, window_id)) => window_id,
        Err(_) => {
            return Err(
                fatal(
                    "policy_detection_budget_window_mismatch",
                    "validate_policy_detection_budget",
                ),
            );
        },
    };
    let other_instance = match &profile.scope {
        ScopeSelector::Instance { instance_id } => !same_text(
            instance_id.as_str(),
            data.instance_id.as_str(),
        ),
        _ => false,
    };
    if other_instance || !same_text(budget.window_id.as_str(), expected_window_id.as_str())
        || budget.dispatch_limit != profile.detection_budget.window_dispatch_limit
        || budget.runtime_limit_ms != profile.detection_budget.window_runtime_ms
        || budget.reservation_ms != profile.detection_budget.expected_duration_ms {
        return Err(
            fatal("policy_detection_budget_profile_mismatch", "validate_policy_detection_budget"),
        );
    }
    Ok(())
}

/// A signal is stored once, under its own name: storing it again changes
/// nothing, and another one of that name is refused.
pub proof fn law_signal_is_stored_once(
    projections: ProjectionsView,
    sequence: u64,
    data: SignalView,
    other_sequence: u64,
    other: SignalView,
)
    requires
        projections.with_signal(sequence, data).1 is Ok,
        other.signal_id == data.signal_id,
    ensures
        ({
            let after = projections.with_signal(sequence, data).0;
            &&& after.signals.contains_key(data.signal_id) && after.signals[data.signal_id] == (
                sequence,
                data,
            )
            &&& after.with_signal(other_sequence, other).0 == after
            &&& after.with_signal(other_sequence, other).1 is Ok <==> other == data
                && other_sequence == sequence
            &&& after.quotas == projections.quotas && after.checkpoint == projections.checkpoint
        }),
{
}

/// The use of a window is only ever replaced by a later one, and the same
/// sequence never tells two uses.
pub proof fn law_window_use_moves_forward(
    projections: ProjectionsView,
    sequence: u64,
    key: PairId,
    usage: DetectionQuotaUsage,
    other: PairId,
)
    requires
        other != key,
    ensures
        ({
            let (after, result) = projections.with_quota(sequence, key, usage);
            &&& result is Ok <==> (projections.quotas.contains_key(key) ==> {
                ||| projections.quotas[key].0 < sequence
                ||| projections.quotas[key] == (sequence, usage)
            })
            &&& result is Ok ==> after.quotas.contains_key(key) && after.quotas[key] == (
                sequence,
                usage,
            )
            &&& result is Err ==> after == projections
            &&& after.quotas.contains_key(other) == projections.quotas.contains_key(other)
                && after.quotas[other] == projections.quotas[other]
            &&& after.signals == projections.signals && after.checkpoint == projections.checkpoint
        }),
{
}

/// The checkpoint never goes back.
pub proof fn law_checkpoint_moves_forward(projections: ProjectionsView, through_sequence: u64)
    ensures
        ({
            let (after, result) = projections.with_checkpoint(through_sequence);
            &&& result is Ok <==> (projections.checkpoint matches Some(at) ==> at
                <= through_sequence)
            &&& result is Ok ==> after.checkpoint == Some(through_sequence)
            &&& result is Err ==> after == projections
            &&& after.signals == projections.signals && after.quotas == projections.quotas
        }),
{
}

/// The budget of a signal is that of a profile, in one of its windows that was
/// open when the signal was observed.
pub open spec fn keeps_to_profile(profile: ActivityProfile, window: int, data: SignalView) -> bool {
    let budget = data.detection_budget->0;
    &&& profile.id@ == budget.profile_id
    &&& 0 <= window < profile.windows@.len()
    &&& open_day(profile.windows@[window], data.observed_at_unix_ms) matches Some(day)
        && budget.window_id == window_name(profile.id@, day, window)
    &&& budget.dispatch_limit == profile.detection_budget.window_dispatch_limit
    &&& budget.runtime_limit_ms == profile.detection_budget.window_runtime_ms
    &&& budget.reservation_ms == profile.detection_budget.expected_duration_ms
    &&& profile.scope matches ScopeSelector::Instance { instance_id } ==> instance_id@
        == data.instance_id
}

/// A signal with a budget is valid only of a profile that its catalog holds, in
/// the window of that profile that was open when it was observed, under the
/// limits that the profile declares, and of the profile's own instance where
/// it is for one.
pub proof fn law_signal_keeps_to_its_profile(shelf: CatalogShelf, data: SignalView)
    requires
        data.detection_budget is Some,
        signal_error(shelf, data) is None,
    ensures
        ({
            let budget = data.detection_budget->0;
            let catalog = shelf.lookup(budget.catalog_hash);
            &&& catalog is Ok
            &&& exists|i: int, w: int|
                0 <= i < catalog->Ok_0.compiled.profiles@.len() && #[trigger] keeps_to_profile(
                    catalog->Ok_0.compiled.profiles@[i],
                    w,
                    data,
                )
        }),
{
    let budget = data.detection_budget->0;
    let compiled = shelf.lookup(budget.catalog_hash)->Ok_0.compiled;
    lemma_position(compiled.profiles@, profile_named(budget.profile_id));
    let i = compiled.profile_position(budget.profile_id)->0;
    assert(profile_named(budget.profile_id)(compiled.profiles@[i]));
    let profile = compiled.profiles@[i];
    law_first_open_window_counts(profile, data.observed_at_unix_ms);
    let (day, w) = open_window(profile, data.observed_at_unix_ms)->0;
    assert(keeps_to_profile(profile, w, data));
}

} // verus!
