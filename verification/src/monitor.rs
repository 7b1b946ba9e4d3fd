//! The registry of monitored instances: what is configured, what is due, and
//! how it is rebuilt from the ledger.

use vstd::prelude::*;

use crate::digest::{hex_text, sha256_hex, sha256_of};
use crate::error::{fatal_error, RuntimeErrorCode, RuntimeHostError, RuntimeHostResult};
use crate::ids::OwnerEpoch;
use crate::ordered_map::{lemma_entry, lemma_keys_are_domain, OrderedMap};
use crate::release_state::{EventOrigin, EventParty};
use crate::text::{
    copy_optional_text, optional_text, same_optional_text, same_text, sorts_before, text_less,
    texts,
};

verus! {

pub const MONITOR_FILE_NAME: &'static str = "monitor.journal";

pub const MONITOR_SCHEMA_VERSION: &'static str = "actingcommand.runtime-monitor.v1";

/// How an instance is monitored.
#[derive(Debug, Clone, PartialEq, Eq)]
pub struct RuntimeMonitorPolicy {
    pub interval_ms: u64,
    /// Everything else the policy carries, encoded.
    pub remainder: String,
}

/// The value of a policy.
pub struct PolicyView {
    pub interval_ms: u64,
    pub remainder: Seq<char>,
}

impl View for RuntimeMonitorPolicy {
    type V = PolicyView;

    open spec fn view(&self) -> PolicyView {
        PolicyView { interval_ms: self.interval_ms, remainder: self.remainder@ }
    }
}

impl RuntimeMonitorPolicy {
    pub fn copy(&self) -> (policy: Self)
        ensures
            policy@ == self@,
    {
        RuntimeMonitorPolicy { interval_ms: self.interval_ms, remainder: self.remainder.clone() }
    }

    pub fn same(&self, other: &Self) -> (same: bool)
        ensures
            same == (self@ == other@),
    {
        self.interval_ms == other.interval_ms && same_text(
            self.remainder.as_str(),
            other.remainder.as_str(),
        )
    }
}

/// What monitoring an instance came to so far.
#[derive(Debug, Clone, PartialEq, Eq)]
pub struct RuntimeMonitorState {
    pub next_due_unix_ms: u64,
    pub run_count: u64,
    /// The name of the error code of the last probe, where that failed.
    pub last_error: Option<String>,
    /// Everything else the state carries, encoded.
    pub remainder: String,
}

/// The value of a state.
pub struct StateView {
    pub next_due_unix_ms: u64,
    pub run_count: u64,
    pub last_error: Option<Seq<char>>,
    pub remainder: Seq<char>,
}

impl View for RuntimeMonitorState {
    type V = StateView;

    open spec fn view(&self) -> StateView {
        StateView {
            next_due_unix_ms: self.next_due_unix_ms,
            run_count: self.run_count,
            last_error: optional_text(self.last_error),
            remainder: self.remainder@,
        }
    }
}

impl RuntimeMonitorState {
    pub fn copy(&self) -> (state: Self)
        ensures
            state@ == self@,
    {
        RuntimeMonitorState {
            next_due_unix_ms: self.next_due_unix_ms,
            run_count: self.run_count,
            last_error: copy_optional_text(&self.last_error),
            remainder: self.remainder.clone(),
        }
    }

    pub fn same(&self, other: &Self) -> (same: bool)
        ensures
            same == (self@ == other@),
    {
        same_optional_text(&self.last_error, &other.last_error) && self.next_due_unix_ms == other.next_due_unix_ms && self.run_count
            == other.run_count && same_text(self.remainder.as_str(), other.remainder.as_str())
    }
}

#[derive(Debug, Clone, PartialEq, Eq)]
pub struct RuntimeMonitorInstanceStatus {
    pub instance_alias: String,
    pub policy: Option<RuntimeMonitorPolicy>,
    pub state: Option<RuntimeMonitorState>,
}

/// The value of a status.
pub struct StatusView {
    pub instance_alias: Seq<char>,
    pub policy: Option<PolicyView>,
    pub state: Option<StateView>,
}

pub open spec fn optional_policy(policy: Option<RuntimeMonitorPolicy>) -> Option<PolicyView> {
    match policy {
        Some(policy) => Some(policy@),
        None => None,
    }
}

pub open spec fn optional_state(state: Option<RuntimeMonitorState>) -> Option<StateView> {
    match state {
        Some(state) => Some(state@),
        None => None,
    }
}

impl View for RuntimeMonitorInstanceStatus {
    type V = StatusView;

    open spec fn view(&self) -> StatusView {
        StatusView {
            instance_alias: self.instance_alias@,
            policy: optional_policy(self.policy),
            state: optional_state(self.state),
        }
    }
}

fn copy_optional_policy(policy: &Option<RuntimeMonitorPolicy>) -> (copy: Option<
    RuntimeMonitorPolicy,
>)
    ensures
        optional_policy(copy) == optional_policy(*policy),
{
    match policy {
        Some(policy) => Some(policy.copy()),
        None => None,
    }
}

fn copy_optional_state(state: &Option<RuntimeMonitorState>) -> (copy: Option<RuntimeMonitorState>)
    ensures
        optional_state(copy) == optional_state(*state),
{
    match state {
        Some(state) => Some(state.copy()),
        None => None,
    }
}

fn same_optional_policy(
    left: &Option<RuntimeMonitorPolicy>,
    right: &Option<RuntimeMonitorPolicy>,
) -> (same: bool)
    ensures
        same == (optional_policy(*left) == optional_policy(*right)),
{
    match (left, right) {
        (Some(left), Some(right)) => left.same(right),
        (None, None) => true,
        _ => false,
    }
}

fn same_optional_state(
    left: &Option<RuntimeMonitorState>,
    right: &Option<RuntimeMonitorState>,
) -> (same: bool)
    ensures
        same == (optional_state(*left) == optional_state(*right)),
{
    match (left, right) {
        (Some(left), Some(right)) => left.same(right),
        (None, None) => true,
        _ => false,
    }
}

/// An instance that is not monitored.
pub open spec fn unconfigured_status(instance_alias: Seq<char>) -> StatusView {
    StatusView { instance_alias, policy: None, state: None }
}

impl RuntimeMonitorInstanceStatus {
    pub fn copy(&self) -> (status: Self)
        ensures
            status@ == self@,
    {
        RuntimeMonitorInstanceStatus {
            instance_alias: self.instance_alias.clone(),
            policy: copy_optional_policy(&self.policy),
            state: copy_optional_state(&self.state),
        }
    }

    pub fn same(&self, other: &Self) -> (same: bool)
        ensures
            same == (self@ == other@),
    {
        same_text(self.instance_alias.as_str(), other.instance_alias.as_str())
            && same_optional_policy(&self.policy, &other.policy) && same_optional_state(
            &self.state,
            &other.state,
        )
    }

    pub fn unconfigured(instance_alias: &str) -> (status: Self)
        ensures
            status@ == unconfigured_status(instance_alias@),
    {
        RuntimeMonitorInstanceStatus {
            instance_alias: instance_alias.to_owned(),
            policy: None,
            state: None,
        }
    }
}

pub open spec fn status_views(statuses: Seq<RuntimeMonitorInstanceStatus>) -> Seq<StatusView> {
    statuses.map_values(|status: RuntimeMonitorInstanceStatus| status@)
}

/// The file that monitors were imported from.
#[derive(Debug, Clone, PartialEq, Eq)]
pub struct RuntimeMonitorJournalSource {
    pub sha256: String,
    pub length: u64,
}

#[derive(Debug, Clone, PartialEq, Eq)]
pub struct RuntimeMonitorImport {
    pub source: Option<RuntimeMonitorJournalSource>,
    pub revision: u64,
    pub instances: Vec<RuntimeMonitorInstanceStatus>,
}

/// The value of an import; a source is its digest and its length.
pub struct ImportView {
    pub source: Option<(Seq<char>, u64)>,
    pub revision: u64,
    pub instances: Seq<StatusView>,
}

impl View for RuntimeMonitorImport {
    type V = ImportView;

    open spec fn view(&self) -> ImportView {
        ImportView {
            source: match self.source {
                Some(source) => Some((source.sha256@, source.length)),
                None => None,
            },
            revision: self.revision,
            instances: status_views(self.instances@),
        }
    }
}

fn copy_statuses(statuses: &Vec<RuntimeMonitorInstanceStatus>) -> (copy: Vec<
    RuntimeMonitorInstanceStatus,
>)
    ensures
        status_views(copy@) == status_views(statuses@),
{
    let mut copy: Vec<RuntimeMonitorInstanceStatus> = Vec::new();
    let mut index: usize = 0;
    while index < statuses.len()
        invariant
            index <= statuses.len(),
            copy@.len() == index,
            forall|i: int| 0 <= i < index ==> (#[trigger] copy@[i])@ == statuses@[i]@,
        decreases statuses.len() - index,
    {
        copy.push(statuses[index].copy());
        index += 1;
    }
    assert(status_views(copy@) =~= status_views(statuses@));
    copy
}

impl RuntimeMonitorImport {
    pub fn copy(&self) -> (import: Self)
        ensures
            import@ == self@,
    {
        RuntimeMonitorImport {
            source: match &self.source {
                Some(source) => Some(
                    RuntimeMonitorJournalSource {
                        sha256: source.sha256.clone(),
                        length: source.length,
                    },
                ),
                None => None,
            },
            revision: self.revision,
            instances: copy_statuses(&self.instances),
        }
    }

    pub fn same(&self, other: &Self) -> (same: bool)
        ensures
            same == (self@ == other@),
    {
        let same_source = match (&self.source, &other.source) {
            (Some(left), Some(right)) => same_text(left.sha256.as_str(), right.sha256.as_str())
                && left.length == right.length,
            (None, None) => true,
            _ => false,
        };
        if !same_source || self.revision != other.revision {
            return false;
        }
        if self.instances.len() != other.instances.len() {
            assert(self@.instances.len() != other@.instances.len());
            return false;
        }
        let mut index: usize = 0;
        while index < self.instances.len()
            invariant
                index <= self.instances.len() == other.instances.len(),
                forall|i: int|
                    0 <= i < index ==> self@.instances[i] == #[trigger] other@.instances[i],
            decreases self.instances.len() - index,
        {
            assert(self@.instances[index as int] == self.instances@[index as int]@);
            assert(other@.instances[index as int] == other.instances@[index as int]@);
            if !self.instances[index].same(&other.instances[index]) {
                return false;
            }
            index += 1;
        }
        assert(self@.instances =~= other@.instances);
        true
    }
}

#[derive(Debug, Clone, Copy, PartialEq, Eq, Structural)]
pub enum RuntimeMonitorChangeKind {
    Configure,
    Clear,
    Probe,
}

#[derive(Debug, Clone, PartialEq, Eq)]
pub struct RuntimeMonitorChange {
    pub kind: RuntimeMonitorChangeKind,
    pub previous_revision: u64,
    pub revision: u64,
    pub configuration_version: u64,
    pub applied: bool,
    pub status: RuntimeMonitorInstanceStatus,
    pub probe_configuration_version: Option<u64>,
    pub probe_state: Option<RuntimeMonitorState>,
}

/// The value of a change.
pub struct ChangeView {
    pub kind: RuntimeMonitorChangeKind,
    pub previous_revision: u64,
    pub revision: u64,
    pub configuration_version: u64,
    pub applied: bool,
    pub status: StatusView,
    pub probe_configuration_version: Option<u64>,
    pub probe_state: Option<StateView>,
}

impl View for RuntimeMonitorChange {
    type V = ChangeView;

    open spec fn view(&self) -> ChangeView {
        ChangeView {
            kind: self.kind,
            previous_revision: self.previous_revision,
            revision: self.revision,
            configuration_version: self.configuration_version,
            applied: self.applied,
            status: self.status@,
            probe_configuration_version: self.probe_configuration_version,
            probe_state: optional_state(self.probe_state),
        }
    }
}

/// What the ledger records about monitors.
#[derive(Debug, Clone)]
pub enum RuntimeStateFact {
    MonitorImported { owner_epoch: OwnerEpoch, import: RuntimeMonitorImport },
    MonitorChanged { owner_epoch: OwnerEpoch, change: Box<RuntimeMonitorChange> },
    Observed,
}

/// A change that is ready to be recorded.
#[derive(Debug, Clone)]
pub struct MonitorUpdate {
    pub changed: bool,
    pub owner_epoch: OwnerEpoch,
    pub change: RuntimeMonitorChange,
}

/// An instance whose probe is due, as it was when it became due.
#[derive(Debug, Clone)]
pub struct DueMonitorProbe {
    pub instance_alias: String,
    pub policy: RuntimeMonitorPolicy,
    pub configuration_version: u64,
    pub state: RuntimeMonitorState,
}

/// The value of a due probe.
pub struct ProbeView {
    pub instance_alias: Seq<char>,
    pub policy: PolicyView,
    pub configuration_version: u64,
    pub state: StateView,
}

impl View for DueMonitorProbe {
    type V = ProbeView;

    open spec fn view(&self) -> ProbeView {
        ProbeView {
            instance_alias: self.instance_alias@,
            policy: self.policy@,
            configuration_version: self.configuration_version,
            state: self.state@,
        }
    }
}

/// An event that was recorded. `fact_valid` says whether its fact is well
/// formed in itself.
#[derive(Debug, Clone)]
pub struct MonitorEvent {
    pub sequence: u64,
    pub origin: EventOrigin,
    pub fact: Option<RuntimeStateFact>,
    pub fact_valid: bool,
}

pub struct MonitorRegistry {
    pub owner_epoch: OwnerEpoch,
    pub revision: u64,
    pub last_sequence: u64,
    pub imported: Option<RuntimeMonitorImport>,
    pub monitors: OrderedMap<String, RuntimeMonitorInstanceStatus>,
    pub configuration_versions: OrderedMap<String, u64>,
    pub allowed_aliases: OrderedMap<String, ()>,
}

/// The value of a registry.
pub struct RegistryView {
    pub owner_epoch: OwnerEpoch,
    pub revision: u64,
    pub last_sequence: u64,
    pub imported: Option<ImportView>,
    pub monitors: Map<Seq<char>, StatusView>,
    pub configuration_versions: Map<Seq<char>, u64>,
    pub allowed_aliases: Set<Seq<char>>,
}

impl View for MonitorRegistry {
    type V = RegistryView;

    open spec fn view(&self) -> RegistryView {
        RegistryView {
            owner_epoch: self.owner_epoch,
            revision: self.revision,
            last_sequence: self.last_sequence,
            imported: match self.imported {
                Some(import) => Some(import@),
                None => None,
            },
            monitors: self.monitors@.map_values(|status: RuntimeMonitorInstanceStatus| status@),
            configuration_versions: self.configuration_versions@,
            allowed_aliases: self.allowed_aliases@.dom(),
        }
    }
}

pub open spec fn monitor_fatal(code: &'static str, operation: &'static str) -> RuntimeHostError {
    fatal_error(code, operation, RuntimeErrorCode::RuntimeFatal)
}

pub open spec fn record_invalid(operation: &'static str) -> RuntimeHostError {
    monitor_fatal("monitor_record_invalid", operation)
}

pub open spec fn alias_unknown() -> RuntimeHostError {
    monitor_fatal("monitor_instance_unknown", "validate_monitor_instance")
}

fn monitor_error(code: &'static str, operation: &'static str) -> (error: RuntimeHostError)
    ensures
        error == monitor_fatal(code, operation),
{
    RuntimeHostError::fatal(code, operation, RuntimeErrorCode::RuntimeFatal)
}

/// The error of a ledger that could not be read or written.
pub fn monitor_ledger_error(operation: &'static str) -> (error: RuntimeHostError)
    ensures
        error == fatal_error("monitor_ledger_failure", operation, RuntimeErrorCode::LedgerFailure),
{
    RuntimeHostError::fatal("monitor_ledger_failure", operation, RuntimeErrorCode::LedgerFailure)
}

fn invalid_monitor_record(operation: &'static str) -> (error: RuntimeHostError)
    ensures
        error == record_invalid(operation),
{
    monitor_error("monitor_record_invalid", operation)
}

impl RegistryView {
    pub open spec fn version(self, alias: Seq<char>) -> u64 {
        if self.configuration_versions.contains_key(alias) {
            self.configuration_versions[alias]
        } else {
            0
        }
    }

    /// The status of an instance that is allowed.
    pub open spec fn status_of(self, alias: Seq<char>) -> StatusView {
        if self.monitors.contains_key(alias) {
            self.monitors[alias]
        } else {
            unconfigured_status(alias)
        }
    }

    /// The change that leads from here to a status. Only an applied change
    /// counts, and only an applied configuration has a version of its own.
    pub open spec fn change_to(
        self,
        kind: RuntimeMonitorChangeKind,
        status: StatusView,
        applied: bool,
        probe_configuration_version: Option<u64>,
        probe_state: Option<StateView>,
    ) -> Result<ChangeView, RuntimeHostError> {
        let revision = self.revision + if applied {
            1int
        } else {
            0
        };
        if revision > u64::MAX {
            Err(monitor_fatal("monitor_revision_overflow", "prepare_monitor_update"))
        } else {
            Ok(
                ChangeView {
                    kind,
                    previous_revision: self.revision,
                    revision: revision as u64,
                    configuration_version: if applied && kind != RuntimeMonitorChangeKind::Probe {
                        revision as u64
                    } else {
                        self.version(status.instance_alias)
                    },
                    applied,
                    status,
                    probe_configuration_version,
                    probe_state,
                },
            )
        }
    }

    pub open spec fn configure_change(
        self,
        alias: Seq<char>,
        policy: Option<PolicyView>,
        scheduled: Option<StateView>,
    ) -> Result<ChangeView, RuntimeHostError> {
        let operation = "configure_monitor_policy";
        if !self.allowed_aliases.contains(alias) {
            Err(alias_unknown())
        } else if policy is None {
            Err(monitor_fatal("monitor_policy_invalid", operation))
        } else if self.monitors.contains_key(alias) && self.monitors[alias].policy == policy {
            self.change_to(
                RuntimeMonitorChangeKind::Configure,
                self.monitors[alias],
                false,
                None,
                None,
            )
        } else if scheduled is None {
            Err(monitor_fatal("monitor_state_invalid", operation))
        } else {
            self.change_to(
                RuntimeMonitorChangeKind::Configure,
                StatusView { instance_alias: alias, policy, state: scheduled },
                true,
                None,
                None,
            )
        }
    }

    pub open spec fn clear_change(self, alias: Seq<char>) -> Result<ChangeView, RuntimeHostError> {
        if !self.allowed_aliases.contains(alias) {
            Err(alias_unknown())
        } else {
            self.change_to(
                RuntimeMonitorChangeKind::Clear,
                unconfigured_status(alias),
                self.monitors.contains_key(alias),
                None,
                None,
            )
        }
    }

    /// The instance is still as it was when the probe became due.
    pub open spec fn probe_is_current(self, probe: ProbeView) -> bool {
        let current = self.status_of(probe.instance_alias);
        &&& self.version(probe.instance_alias) == probe.configuration_version
        &&& current.policy == Some(probe.policy)
        &&& current.state == Some(probe.state)
    }

    /// The change of a probe that came to a state. A probe that is overtaken
    /// changes nothing.
    pub open spec fn probe_change(
        self,
        probe: ProbeView,
        state: Option<StateView>,
        operation: &'static str,
    ) -> Result<ChangeView, RuntimeHostError> {
        if state is None {
            Err(monitor_fatal("monitor_state_invalid", operation))
        } else if !self.allowed_aliases.contains(probe.instance_alias) {
            Err(alias_unknown())
        } else {
            let current = self.probe_is_current(probe);
            self.change_to(
                RuntimeMonitorChangeKind::Probe,
                if current {
                    StatusView {
                        instance_alias: probe.instance_alias,
                        policy: Some(probe.policy),
                        state,
                    }
                } else {
                    self.status_of(probe.instance_alias)
                },
                current,
                Some(probe.configuration_version),
                state,
            )
        }
    }

    /// The registry with imported instances, up to the first that is not
    /// allowed.
    pub open spec fn with_instances(self, instances: Seq<StatusView>, revision: u64) -> (
        RegistryView,
        Result<(), RuntimeHostError>,
    )
        decreases instances.len(),
    {
        if instances.len() == 0 {
            (self, Ok(()))
        } else {
            let earlier = self.with_instances(instances.drop_last(), revision);
            let status = instances.last();
            if earlier.1 is Err {
                earlier
            } else if !self.allowed_aliases.contains(status.instance_alias) {
                (earlier.0, Err(alias_unknown()))
            } else {
                (
                    RegistryView {
                        monitors: earlier.0.monitors.insert(status.instance_alias, status),
                        configuration_versions: earlier.0.configuration_versions.insert(
                            status.instance_alias,
                            revision,
                        ),
                        ..earlier.0
                    },
                    Ok(()),
                )
            }
        }
    }

    pub open spec fn with_import(self, import: ImportView) -> (
        RegistryView,
        Result<(), RuntimeHostError>,
    ) {
        if self.imported is Some || self.revision != 0 {
            (self, Err(monitor_fatal("monitor_import_conflict", "replay_monitor_event")))
        } else {
            let (filled, result) = self.with_instances(import.instances, import.revision);
            if result is Err {
                (filled, result)
            } else {
                (
                    RegistryView { revision: import.revision, imported: Some(import), ..filled },
                    Ok(()),
                )
            }
        }
    }

    /// The error of a recorded change that does not follow from here.
    pub open spec fn change_error(self, change: ChangeView) -> Option<RuntimeHostError> {
        let alias = change.status.instance_alias;
        if self.imported is None || self.revision != change.previous_revision {
            Some(record_invalid("replay_monitor_revision"))
        } else if !self.allowed_aliases.contains(alias) {
            Some(alias_unknown())
        } else if (!change.applied || change.kind == RuntimeMonitorChangeKind::Probe)
            && self.version(alias) != change.configuration_version {
            Some(record_invalid("replay_monitor_configuration"))
        } else if !change.applied && self.status_of(alias) != change.status {
            Some(record_invalid("replay_monitor_unchanged_state"))
        } else {
            None
        }
    }

    pub open spec fn with_change(self, change: ChangeView) -> RegistryView {
        let alias = change.status.instance_alias;
        RegistryView {
            revision: change.revision,
            monitors: if !change.applied {
                self.monitors
            } else if change.status.policy is Some {
                self.monitors.insert(alias, change.status)
            } else {
                self.monitors.remove(alias)
            },
            configuration_versions: if change.applied {
                self.configuration_versions.insert(alias, change.configuration_version)
            } else {
                self.configuration_versions
            },
            ..self
        }
    }

    /// The registry and the result after a recorded event.
    pub open spec fn with_event(self, event: MonitorEvent) -> (
        RegistryView,
        Result<(), RuntimeHostError>,
    ) {
        if event.fact is None || event.fact->0 is Observed {
            (self, Ok(()))
        } else if event.origin.module != EventParty::Runtime || event.origin.source
            != EventParty::Runtime || event.origin.actor != EventParty::Runtime || event.sequence
            <= self.last_sequence || !event.fact_valid {
            (self, Err(record_invalid("replay_monitor_event")))
        } else {
            match event.fact->0 {
                RuntimeStateFact::MonitorImported { import, .. } => {
                    let (after, result) = self.with_import(import@);
                    if result is Err {
                        (after, result)
                    } else {
                        (RegistryView { last_sequence: event.sequence, ..after }, Ok(()))
                    }
                },
                RuntimeStateFact::MonitorChanged { change, .. } => match self.change_error(
                    change@,
                ) {
                    Some(error) => (self, Err(error)),
                    None => (
                        RegistryView {
                            last_sequence: event.sequence,
                            ..self.with_change(change@)
                        },
                        Ok(()),
                    ),
                },
                RuntimeStateFact::Observed => (self, Ok(())),
            }
        }
    }
}

impl RegistryView {
    /// The registry and the result after some recorded events: the first error
    /// ends the replay.
    pub open spec fn with_events(self, events: Seq<MonitorEvent>) -> (
        RegistryView,
        Result<(), RuntimeHostError>,
    )
        decreases events.len(),
    {
        if events.len() == 0 {
            (self, Ok(()))
        } else {
            let (before, result) = self.with_events(events.drop_last());
            if result is Err {
                (before, result)
            } else {
                before.with_event(events.last())
            }
        }
    }
}

/// A registry that knows its instances and nothing else.
pub open spec fn empty_registry(owner_epoch: OwnerEpoch, allowed: Set<Seq<char>>) -> RegistryView {
    RegistryView {
        owner_epoch,
        revision: 0,
        last_sequence: 0,
        imported: None,
        monitors: Map::empty(),
        configuration_versions: Map::empty(),
        allowed_aliases: allowed,
    }
}

/// What a registry comes to from the ledger's events and the journal file: the
/// registry, and the import that is still to be recorded.
pub open spec fn recovered_registry(
    owner_epoch: OwnerEpoch,
    allowed: Set<Seq<char>>,
    max_instances: int,
    events: Seq<MonitorEvent>,
    file: JournalFile,
) -> Result<(RegistryView, Option<ImportView>), RuntimeHostError> {
    let (registry, replayed) = empty_registry(owner_epoch, allowed).with_events(events);
    if allowed.len() == 0 || allowed.len() > max_instances {
        Err(monitor_fatal("invalid_monitor_instance_registry", "open_monitor_registry"))
    } else {
        match replayed {
            Err(error) => Err(error),
            Ok(_) => match snapshot_of(file, registry.allowed_aliases) {
                Err(error) => Err(error),
                Ok(original) => match registry.imported {
                    None => Ok((registry, Some(original))),
                    Some(imported) => if imported == original {
                        Ok((registry, None))
                    } else {
                        Err(
                            monitor_fatal(
                                "monitor_import_source_conflict",
                                "open_monitor_registry",
                            ),
                        )
                    },
                },
            },
        }
    }
}

proof fn lemma_replay_stops_at_error(registry: RegistryView, events: Seq<MonitorEvent>, count: int)
    requires
        0 <= count <= events.len(),
        registry.with_events(events.take(count)).1 is Err,
    ensures
        registry.with_events(events) == registry.with_events(events.take(count)),
    decreases events.len(),
{
    if count == events.len() {
        assert(events.take(count) =~= events);
    } else {
        assert(events.drop_last().take(count) =~= events.take(count));
        lemma_replay_stops_at_error(registry, events.drop_last(), count);
    }
}

/// A result that holds a change, or the error.
pub open spec fn update_is(
    result: RuntimeHostResult<MonitorUpdate>,
    owner_epoch: OwnerEpoch,
    expected: Result<ChangeView, RuntimeHostError>,
) -> bool {
    match expected {
        Ok(change) => result matches Ok(update) && update.change@ == change && update.changed
            == change.applied && update.owner_epoch == owner_epoch,
        Err(error) => result matches Err(actual) && actual == error,
    }
}

/// A status whose probe is due.
pub open spec fn is_due(now_unix_ms: u64) -> spec_fn((String, RuntimeMonitorInstanceStatus)) -> bool {
    |entry: (String, RuntimeMonitorInstanceStatus)|
        entry.1.state is Some && (entry.1.state->0).next_due_unix_ms <= now_unix_ms
}

/// The first few entries that are due.
pub open spec fn first_due(
    entries: Seq<(String, RuntimeMonitorInstanceStatus)>,
    now_unix_ms: u64,
    maximum: int,
) -> Seq<(String, RuntimeMonitorInstanceStatus)>
    decreases entries.len(),
{
    if entries.len() == 0 {
        Seq::empty()
    } else {
        let earlier = first_due(entries.drop_last(), now_unix_ms, maximum);
        if earlier.len() < maximum && is_due(now_unix_ms)(entries.last()) {
            earlier.push(entries.last())
        } else {
            earlier
        }
    }
}

proof fn lemma_first_due_grows(
    entries: Seq<(String, RuntimeMonitorInstanceStatus)>,
    now_unix_ms: u64,
    maximum: int,
    count: int,
)
    requires
        0 <= count <= entries.len(),
    ensures
        ({
            let part = first_due(entries.take(count), now_unix_ms, maximum);
            let whole = first_due(entries, now_unix_ms, maximum);
            &&& part.len() <= whole.len()
            &&& whole.take(part.len() as int) == part
            &&& part.len() >= maximum ==> whole == part
        }),
    decreases entries.len(),
{
    let part = first_due(entries.take(count), now_unix_ms, maximum);
    let whole = first_due(entries, now_unix_ms, maximum);
    if count == entries.len() {
        assert(entries.take(count) =~= entries);
        assert(whole.take(part.len() as int) =~= part);
    } else {
        assert(entries.drop_last().take(count) =~= entries.take(count));
        lemma_first_due_grows(entries.drop_last(), now_unix_ms, maximum, count);
        let middle = first_due(entries.drop_last(), now_unix_ms, maximum);
        assert(whole.take(part.len() as int) =~= middle.take(part.len() as int));
    }
}

impl MonitorRegistry {
    pub open spec fn wf(&self) -> bool {
        &&& self.monitors.wf()
        &&& self.configuration_versions.wf()
        &&& self.allowed_aliases.wf()
        &&& forall|alias: Seq<char>| #[trigger]
            self.monitors@.contains_key(alias) ==> self.monitors@[alias].instance_alias@ == alias
    }

    /// A registry without monitors. There must be instances to monitor, and
    /// not too many.
    pub fn new(owner_epoch: OwnerEpoch, aliases: &Vec<String>, max_instances: usize) -> (result:
        RuntimeHostResult<Self>)
        ensures
            ({
                let allowed = texts(aliases@).to_set();
                if allowed.len() == 0 || allowed.len() > max_instances {
                    result matches Err(error) && error == monitor_fatal(
                        "invalid_monitor_instance_registry",
                        "open_monitor_registry",
                    )
                } else {
                    &&& result is Ok
                    &&& result->Ok_0.wf()
                    &&& result->Ok_0@ == empty_registry(owner_epoch, allowed)
                }
            }),
    {
        let mut allowed: OrderedMap<String, ()> = OrderedMap::new();
        let ghost all = texts(aliases@);
        let mut index: usize = 0;
        assert(all.take(0).to_set() =~= allowed@.dom());
        while index < aliases.len()
            invariant
                index <= aliases.len(),
                all == texts(aliases@),
                allowed.wf(),
                allowed@.dom() =~= all.take(index as int).to_set(),
            decreases aliases.len() - index,
        {
            allowed.insert(aliases[index].clone(), ());
            proof {
                assert(all.take(index + 1) =~= all.take(index as int).push(aliases@[index as int]@));
                assert(all.take(index + 1).to_set() =~= all.take(index as int).to_set().insert(
                    aliases@[index as int]@,
                )) by {
                    let before = all.take(index as int);
                    let after = all.take(index + 1);
                    let added = aliases@[index as int]@;
                    assert forall|id: Seq<char>| after.contains(id) == (before.contains(id) || id
                        == added) by {
                        if before.contains(id) {
                            assert(after[before.index_of(id)] == id);
                        }
                        if id == added {
                            assert(after[index as int] == id);
                        }
                        if after.contains(id) {
                            let at = after.index_of(id);
                            if at < index {
                                assert(before[at] == id);
                            }
                        }
                    }
                }
            }
            index += 1;
        }
        proof {
            assert(all.take(all.len() as int) =~= all);
            lemma_keys_are_domain(allowed);
        }
        if allowed.len() == 0 || allowed.len() > max_instances {
            return Err(
                monitor_error("invalid_monitor_instance_registry", "open_monitor_registry"),
            );
        }
        let registry = MonitorRegistry {
            owner_epoch,
            revision: 0,
            last_sequence: 0,
            imported: None,
            monitors: OrderedMap::new(),
            configuration_versions: OrderedMap::new(),
            allowed_aliases: allowed,
        };
        assert(registry@.monitors =~= Map::empty());
        Ok(registry)
    }

    fn require_allowed(&self, instance_alias: &String) -> (result: RuntimeHostResult<()>)
        requires
            self.wf(),
        ensures
            result == if self@.allowed_aliases.contains(instance_alias@) {
                Ok::<(), RuntimeHostError>(())
            } else {
                Err(alias_unknown())
            },
    {
        if !self.allowed_aliases.contains(instance_alias) {
            return Err(monitor_error("monitor_instance_unknown", "validate_monitor_instance"));
        }
        Ok(())
    }

    fn configuration_version(&self, alias: &String) -> (version: u64)
        requires
            self.wf(),
        ensures
            version == self@.version(alias@),
    {
        match self.configuration_versions.get(alias) {
            Some(version) => *version,
            None => 0,
        }
    }

    /// The status of an instance.
    pub fn instance_status(&self, alias: &String) -> (result: RuntimeHostResult<
        RuntimeMonitorInstanceStatus,
    >)
        requires
            self.wf(),
        ensures
            if self@.allowed_aliases.contains(alias@) {
                result matches Ok(status) && status@ == self@.status_of(alias@)
            } else {
                result matches Err(error) && error == alias_unknown()
            },
    {
        self.require_allowed(alias)?;
        match self.monitors.get(alias) {
            Some(status) => Ok(status.copy()),
            None => Ok(RuntimeMonitorInstanceStatus::unconfigured(alias.as_str())),
        }
    }

    /// The status of every instance, in the order of their aliases.
    pub fn status(&self) -> (result: RuntimeHostResult<Vec<RuntimeMonitorInstanceStatus>>)
        requires
            self.wf(),
        ensures
            result is Ok,
            status_views(result->Ok_0@) == Seq::new(
                self.allowed_aliases.keys().len(),
                |i: int| self@.status_of(self.allowed_aliases.keys()[i]),
            ),
    {
        let ghost keys = self.allowed_aliases.keys();
        let mut statuses: Vec<RuntimeMonitorInstanceStatus> = Vec::new();
        let mut index: usize = 0;
        while index < self.allowed_aliases.entries.len()
            invariant
                index <= self.allowed_aliases.entries.len(),
                self.wf(),
                keys == self.allowed_aliases.keys(),
                statuses@.len() == index,
                forall|i: int|
                    0 <= i < index ==> (#[trigger] statuses@[i])@ == self@.status_of(keys[i]),
            decreases self.allowed_aliases.entries.len() - index,
        {
            proof {
                lemma_entry(self.allowed_aliases.entries@, index as int);
                assert(keys[index as int] == self.allowed_aliases.entries@[index as int].0@);
            }
            statuses.push(self.instance_status(&self.allowed_aliases.entries[index].0)?);
            index += 1;
        }
        assert(status_views(statuses@) =~= Seq::new(
            keys.len(),
            |i: int| self@.status_of(keys[i]),
        ));
        Ok(statuses)
    }

    fn update(
        &self,
        kind: RuntimeMonitorChangeKind,
        status: RuntimeMonitorInstanceStatus,
        applied: bool,
        probe_configuration_version: Option<u64>,
        probe_state: Option<RuntimeMonitorState>,
    ) -> (result: RuntimeHostResult<MonitorUpdate>)
        requires
            self.wf(),
        ensures
            update_is(
                result,
                self.owner_epoch,
                self@.change_to(
                    kind,
                    status@,
                    applied,
                    probe_configuration_version,
                    optional_state(probe_state),
                ),
            ),
    {
        if applied && self.revision == u64::MAX {
            return Err(monitor_error("monitor_revision_overflow", "prepare_monitor_update"));
        }
        let revision: u64 = if applied {
            self.revision + 1
        } else {
            self.revision
        };
        let configuration_version: u64 = if applied && kind != RuntimeMonitorChangeKind::Probe {
            revision
        } else {
            self.configuration_version(&status.instance_alias)
        };
        Ok(
            MonitorUpdate {
                changed: applied,
                owner_epoch: self.owner_epoch,
                change: RuntimeMonitorChange {
                    kind,
                    previous_revision: self.revision,
                    revision,
                    configuration_version,
                    applied,
                    status,
                    probe_configuration_version,
                    probe_state,
                },
            },
        )
    }

    /// Prepares to monitor an instance. The policy is nothing where it is not
    /// valid, the schedule where no state could be made for now.
    pub fn prepare_configure(
        &self,
        instance_alias: &String,
        policy: Option<RuntimeMonitorPolicy>,
        scheduled: Option<RuntimeMonitorState>,
    ) -> (result: RuntimeHostResult<MonitorUpdate>)
        requires
            self.wf(),
        ensures
            update_is(
                result,
                self.owner_epoch,
                self@.configure_change(
                    instance_alias@,
                    optional_policy(policy),
                    optional_state(scheduled),
                ),
            ),
    {
        self.require_allowed(instance_alias)?;
        let policy = match policy {
            Some(policy) => policy,
            None => {
                return Err(monitor_error("monitor_policy_invalid", "configure_monitor_policy"));
            },
        };
        if let Some(existing) = self.monitors.get(instance_alias) {
            let same_policy = match &existing.policy {
                Some(current) => current.same(&policy),
                None => false,
            };
            if same_policy {
                return self.update(
                    RuntimeMonitorChangeKind::Configure,
                    existing.copy(),
                    false,
                    None,
                    None,
                );
            }
        }
        let state = match scheduled {
            Some(state) => state,
            None => {
                return Err(monitor_error("monitor_state_invalid", "configure_monitor_policy"));
            },
        };
        let status = RuntimeMonitorInstanceStatus {
            instance_alias: instance_alias.clone(),
            policy: Some(policy),
            state: Some(state),
        };
        self.update(RuntimeMonitorChangeKind::Configure, status, true, None, None)
    }

    /// Prepares to stop monitoring an instance.
    pub fn prepare_clear(&self, instance_alias: &String) -> (result: RuntimeHostResult<
        MonitorUpdate,
    >)
        requires
            self.wf(),
        ensures
            update_is(result, self.owner_epoch, self@.clear_change(instance_alias@)),
    {
        self.require_allowed(instance_alias)?;
        let status = RuntimeMonitorInstanceStatus::unconfigured(instance_alias.as_str());
        self.update(
            RuntimeMonitorChangeKind::Clear,
            status,
            self.monitors.contains(instance_alias),
            None,
            None,
        )
    }

    /// The probes that are due, in the order of their aliases, at most as many
    /// as wanted.
    pub fn due(&self, now_unix_ms: u64, maximum: usize) -> (result: RuntimeHostResult<
        Vec<DueMonitorProbe>,
    >)
        requires
            self.wf(),
        ensures
            ({
                let due = first_due(self.monitors.entries@, now_unix_ms, maximum as int);
                if now_unix_ms == 0 || maximum == 0 {
                    result matches Err(error) && error == monitor_fatal(
                        "monitor_due_query_invalid",
                        "read_due_monitors",
                    )
                } else if exists|i: int| 0 <= i < due.len() && (#[trigger] due[i]).1.policy is None {
                    result matches Err(error) && error == record_invalid("read_due_monitors")
                } else {
                    &&& result matches Ok(probes)
                    &&& probes@.len() == due.len()
                    &&& forall|i: int|
                        0 <= i < due.len() ==> (#[trigger] probes@[i])@ == (ProbeView {
                            instance_alias: due[i].1.instance_alias@,
                            policy: (due[i].1.policy->0)@,
                            configuration_version: self@.version(due[i].1.instance_alias@),
                            state: (due[i].1.state->0)@,
                        })
                }
            }),
    {
        if now_unix_ms == 0 || maximum == 0 {
            return Err(monitor_error("monitor_due_query_invalid", "read_due_monitors"));
        }
        let ghost entries = self.monitors.entries@;
        let ghost due = first_due(entries, now_unix_ms, maximum as int);
        let mut probes: Vec<DueMonitorProbe> = Vec::new();
        let mut index: usize = 0;
        assert(entries.take(0) =~= Seq::empty());
        while index < self.monitors.entries.len() && probes.len() < maximum
            invariant
                index <= self.monitors.entries.len(),
                self.wf(),
                now_unix_ms > 0,
                entries == self.monitors.entries@,
                due == first_due(entries, now_unix_ms, maximum as int),
                probes@.len() <= maximum,
                probes@.len() == first_due(
                    entries.take(index as int),
                    now_unix_ms,
                    maximum as int,
                ).len(),
                probes@.len() <= due.len(),
                forall|i: int|
                    0 <= i < probes@.len() ==> (#[trigger] due[i]).1.policy is Some,
                forall|i: int|
                    0 <= i < probes@.len() ==> (#[trigger] probes@[i])@ == (ProbeView {
                        instance_alias: due[i].1.instance_alias@,
                        policy: (due[i].1.policy->0)@,
                        configuration_version: self@.version(due[i].1.instance_alias@),
                        state: (due[i].1.state->0)@,
                    }),
            decreases self.monitors.entries.len() - index,
        {
            let status = &self.monitors.entries[index].1;
            proof {
                let taken = entries.take(index + 1);
                assert(taken.drop_last() =~= entries.take(index as int));
                assert(taken.last() == entries[index as int]);
                lemma_first_due_grows(entries, now_unix_ms, maximum as int, index + 1);
                let part = first_due(taken, now_unix_ms, maximum as int);
                if part.len() > probes@.len() {
                    assert(due.take(part.len() as int)[probes@.len() as int] == part[probes@.len() as int]);
                }
            }
            if let Some(state) = &status.state {
                if state.next_due_unix_ms <= now_unix_ms {
                    let policy = match &status.policy {
                        Some(policy) => policy.copy(),
                        None => {
                            assert(due[probes@.len() as int].1.policy is None);
                            return Err(invalid_monitor_record("read_due_monitors"));
                        },
                    };
                    probes.push(
                        DueMonitorProbe {
                            instance_alias: status.instance_alias.clone(),
                            policy,
                            configuration_version: self.configuration_version(
                                &status.instance_alias,
                            ),
                            state: state.copy(),
                        },
                    );
                }
            }
            index += 1;
        }
        proof {
            lemma_first_due_grows(entries, now_unix_ms, maximum as int, index as int);
            if index == entries.len() {
                assert(entries.take(index as int) =~= entries);
            }
        }
        Ok(probes)
    }

    /// Prepares the result of a probe that was carried out.
    pub fn prepare_completion(&self, probe: &DueMonitorProbe, state: Option<RuntimeMonitorState>) -> (result:
        RuntimeHostResult<MonitorUpdate>)
        requires
            self.wf(),
        ensures
            update_is(
                result,
                self.owner_epoch,
                self@.probe_change(probe@, optional_state(state), "complete_monitor_probe"),
            ),
    {
        match state {
            Some(state) => self.finish_probe(probe, state),
            None => Err(monitor_error("monitor_state_invalid", "complete_monitor_probe")),
        }
    }

    /// Prepares the result of a probe that failed.
    pub fn prepare_failure(&self, probe: &DueMonitorProbe, state: Option<RuntimeMonitorState>) -> (result:
        RuntimeHostResult<MonitorUpdate>)
        requires
            self.wf(),
        ensures
            update_is(
                result,
                self.owner_epoch,
                self@.probe_change(probe@, optional_state(state), "fail_monitor_probe"),
            ),
    {
        match state {
            Some(state) => self.finish_probe(probe, state),
            None => Err(monitor_error("monitor_state_invalid", "fail_monitor_probe")),
        }
    }

    /// Closes a probe with the state that it gave. A probe that was overtaken
    /// changes nothing.
    pub fn finish_probe(&self, probe: &DueMonitorProbe, state: RuntimeMonitorState) -> (result:
        RuntimeHostResult<MonitorUpdate>)
        requires
            self.wf(),
        ensures
            update_is(
                result,
                self.owner_epoch,
                self@.probe_change(probe@, Some(state@), "fail_monitor_probe"),
            ),
    {
        let current = self.instance_status(&probe.instance_alias)?;
        let same_policy = match &current.policy {
            Some(policy) => policy.same(&probe.policy),
            None => false,
        };
        let same_state = match &current.state {
            Some(state) => state.same(&probe.state),
            None => false,
        };
        let applied = self.configuration_version(&probe.instance_alias)
            == probe.configuration_version && same_policy && same_state;
        let status = if applied {
            RuntimeMonitorInstanceStatus {
                instance_alias: probe.instance_alias.clone(),
                policy: Some(probe.policy.copy()),
                state: Some(state.copy()),
            }
        } else {
            current
        };
        self.update(
            RuntimeMonitorChangeKind::Probe,
            status,
            applied,
            Some(probe.configuration_version),
            Some(state),
        )
    }

    /// Applies only the state embedded in a committed event.
    pub fn apply(&mut self, event: &MonitorEvent) -> (result: RuntimeHostResult<()>)
        requires
            old(self).wf(),
        ensures
            final(self).wf(),
            (final(self)@, result) == old(self)@.with_event(*event),
    {
        let fact = match &event.fact {
            Some(fact) => fact,
            None => {
                return Ok(());
            },
        };
        if let RuntimeStateFact::Observed = fact {
            return Ok(());
        }
        if event.origin.module != EventParty::Runtime || event.origin.source != EventParty::Runtime
            || event.origin.actor != EventParty::Runtime || event.sequence <= self.last_sequence {
            return Err(invalid_monitor_record("replay_monitor_event"));
        }
        if !event.fact_valid {
            return Err(invalid_monitor_record("replay_monitor_event"));
        }
        match fact {
            RuntimeStateFact::MonitorImported { import, .. } => {
                self.apply_import(import)?;
            },
            RuntimeStateFact::MonitorChanged { change, .. } => {
                self.apply_change(change)?;
            },
            RuntimeStateFact::Observed => {
                return Ok(());
            },
        }
        self.last_sequence = event.sequence;
        Ok(())
    }

    fn apply_import(&mut self, import: &RuntimeMonitorImport) -> (result: RuntimeHostResult<()>)
        requires
            old(self).wf(),
        ensures
            final(self).wf(),
            (final(self)@, result) == old(self)@.with_import(import@),
    {
        if self.imported.is_some() || self.revision != 0 {
            return Err(monitor_error("monitor_import_conflict", "replay_monitor_event"));
        }
        let ghost before = self@;
        let ghost all = status_views(import.instances@);
        let mut index: usize = 0;
        assert(all.take(0) =~= Seq::empty());
        while index < import.instances.len()
            invariant
                index <= import.instances.len(),
                self.wf(),
                before == old(self)@,
                before.imported is None,
                before.revision == 0,
                all == status_views(import.instances@),
                self@.allowed_aliases == before.allowed_aliases,
                before.with_instances(all.take(index as int), import.revision) == (
                    self@,
                    Ok::<(), RuntimeHostError>(()),
                ),
            decreases import.instances.len() - index,
        {
            let status = &import.instances[index];
            proof {
                let taken = all.take(index + 1);
                assert(taken.drop_last() =~= all.take(index as int));
                assert(taken.last() == status@);
                if before.with_instances(taken, import.revision).1 is Err {
                    lemma_import_stops_at_error(before, all, import.revision, index + 1);
                }
            }
            self.require_allowed(&status.instance_alias)?;
            let ghost current = self@;
            self.configuration_versions.insert(status.instance_alias.clone(), import.revision);
            self.monitors.insert(status.instance_alias.clone(), status.copy());
            proof {
                assert(self@.monitors =~= current.monitors.insert(
                    status.instance_alias@,
                    status@,
                ));
            }
            index += 1;
        }
        assert(all.take(all.len() as int) =~= all);
        self.revision = import.revision;
        self.imported = Some(import.copy());
        Ok(())
    }

    fn apply_change(&mut self, change: &RuntimeMonitorChange) -> (result: RuntimeHostResult<()>)
        requires
            old(self).wf(),
        ensures
            final(self).wf(),
            match old(self)@.change_error(change@) {
                Some(error) => result == Err::<(), _>(error) && final(self)@ == old(self)@,
                None => result == Ok::<(), RuntimeHostError>(()) && final(self)@ == old(
                    self,
                )@.with_change(change@),
            },
    {
        if self.imported.is_none() || self.revision != change.previous_revision {
            return Err(invalid_monitor_record("replay_monitor_revision"));
        }
        let alias = &change.status.instance_alias;
        self.require_allowed(alias)?;
        let current_version = self.configuration_version(alias);
        if (!change.applied || change.kind == RuntimeMonitorChangeKind::Probe) && current_version
            != change.configuration_version {
            return Err(invalid_monitor_record("replay_monitor_configuration"));
        }
        if !change.applied {
            let current = self.instance_status(alias)?;
            if !current.same(&change.status) {
                return Err(invalid_monitor_record("replay_monitor_unchanged_state"));
            }
        }
        if change.applied {
            if change.status.policy.is_some() {
                self.monitors.insert(alias.clone(), change.status.copy());
                assert(self@.monitors =~= old(self)@.monitors.insert(alias@, change.status@));
            } else {
                let _ = self.monitors.remove(alias);
                assert(self@.monitors =~= old(self)@.monitors.remove(alias@));
            }
            self.configuration_versions.insert(alias.clone(), change.configuration_version);
        }
        self.revision = change.revision;
        Ok(())
    }

    /// Recovers the registry from the ledger's events and the journal file.
    /// Where nothing was imported yet, the fact of the import is given too: it
    /// is to be recorded and then applied.
    pub fn recover(
        owner_epoch: OwnerEpoch,
        aliases: &Vec<String>,
        max_instances: usize,
        events: &Vec<MonitorEvent>,
        file: JournalFile,
    ) -> (result: RuntimeHostResult<(Self, Option<RuntimeStateFact>)>)
        ensures
            match recovered_registry(
                owner_epoch,
                texts(aliases@).to_set(),
                max_instances as int,
                events@,
                file,
            ) {
                Err(fault) => result matches Err(error) && error == fault,
                Ok((registry, original)) => {
                    &&& result is Ok
                    &&& (result->Ok_0).0.wf()
                    &&& (result->Ok_0).0@ == registry
                    &&& match original {
                        None => (result->Ok_0).1 is None,
                        Some(original) => (result->Ok_0).1 matches Some(
                            RuntimeStateFact::MonitorImported { owner_epoch: epoch, import },
                        ) && epoch == owner_epoch && import@ == original,
                    }
                },
            },
    {
        let mut registry = MonitorRegistry::new(owner_epoch, aliases, max_instances)?;
        let ghost start = registry@;
        let mut index: usize = 0;
        assert(events@.take(0) =~= Seq::empty());
        while index < events.len()
            invariant
                index <= events.len(),
                registry.wf(),
                registry.owner_epoch == owner_epoch,
                start == empty_registry(owner_epoch, texts(aliases@).to_set()),
                !(start.allowed_aliases.len() == 0 || start.allowed_aliases.len() > max_instances),
                start.with_events(events@.take(index as int)) == (
                    registry@,
                    Ok::<(), RuntimeHostError>(()),
                ),
            decreases events.len() - index,
        {
            proof {
                let taken = events@.take(index + 1);
                assert(taken.drop_last() =~= events@.take(index as int));
                assert(taken.last() == events@[index as int]);
                if start.with_events(taken).1 is Err {
                    lemma_replay_stops_at_error(start, events@, index + 1);
                }
                if let Some(RuntimeStateFact::MonitorImported { import, .. }) =
                    events@[index as int].fact {
                    lemma_import_keeps_instances(registry@, import@.instances, import@.revision);
                }
            }
            registry.apply(&events[index])?;
            index += 1;
        }
        assert(events@.take(events@.len() as int) =~= events@);
        let original = read_legacy_snapshot(file, &registry.allowed_aliases)?;
        let fact = registry.decide_import(original)?;
        Ok((registry, fact))
    }

    /// Compares what was imported with the file that is there. Where nothing
    /// was imported yet, the import is to be recorded.
    pub fn decide_import(&self, original: RuntimeMonitorImport) -> (result: RuntimeHostResult<
        Option<RuntimeStateFact>,
    >)
        requires
            self.wf(),
        ensures
            match self@.imported {
                Some(imported) => if imported == original@ {
                    result matches Ok(fact) && fact is None
                } else {
                    result matches Err(error) && error == monitor_fatal(
                        "monitor_import_source_conflict",
                        "open_monitor_registry",
                    )
                },
                None => result matches Ok(Some(RuntimeStateFact::MonitorImported {
                    owner_epoch,
                    import,
                })) && owner_epoch == self.owner_epoch && import == original,
            },
    {
        match &self.imported {
            Some(imported) => {
                if !imported.same(&original) {
                    return Err(
                        monitor_error("monitor_import_source_conflict", "open_monitor_registry"),
                    );
                }
                Ok(None)
            },
            None => Ok(
                Some(
                    RuntimeStateFact::MonitorImported {
                        owner_epoch: self.owner_epoch,
                        import: original,
                    },
                ),
            ),
        }
    }
}

proof fn lemma_import_stops_at_error(
    registry: RegistryView,
    instances: Seq<StatusView>,
    revision: u64,
    count: int,
)
    requires
        0 <= count <= instances.len(),
        registry.with_instances(instances.take(count), revision).1 is Err,
    ensures
        registry.with_instances(instances, revision) == registry.with_instances(
            instances.take(count),
            revision,
        ),
    decreases instances.len(),
{
    if count == instances.len() {
        assert(instances.take(count) =~= instances);
    } else {
        assert(instances.drop_last().take(count) =~= instances.take(count));
        lemma_import_stops_at_error(registry, instances.drop_last(), revision, count);
    }
}

/// A record of the monitor journal. `statuses_valid` says whether each status
/// is well formed in itself.
#[derive(Debug, Clone)]
pub struct MonitorRecord {
    pub schema_version: String,
    pub revision: u64,
    pub monitors: Vec<RuntimeMonitorInstanceStatus>,
    pub statuses_valid: bool,
}

/// A record with a version, whose instances are configured, allowed, and in
/// strict order.
pub open spec fn record_valid(record: MonitorRecord, allowed: Set<Seq<char>>) -> bool {
    let monitors = record.monitors@;
    &&& record.schema_version@ == MONITOR_SCHEMA_VERSION@
    &&& record.revision != 0
    &&& record.statuses_valid
    &&& forall|i: int|
        0 <= i < monitors.len() ==> (#[trigger] monitors[i]).policy is Some && allowed.contains(
            monitors[i].instance_alias@,
        )
    &&& forall|i: int|
        0 < i < monitors.len() ==> text_less(
            monitors[i - 1].instance_alias@,
            (#[trigger] monitors[i]).instance_alias@,
        )
}

fn validate_record(record: &MonitorRecord, allowed: &OrderedMap<String, ()>) -> (result:
    RuntimeHostResult<()>)
    requires
        allowed.wf(),
    ensures
        result == if record_valid(*record, allowed@.dom()) {
            Ok::<(), RuntimeHostError>(())
        } else {
            Err(record_invalid("validate_monitor_registry"))
        },
{
    if !same_text(record.schema_version.as_str(), MONITOR_SCHEMA_VERSION) || record.revision == 0
        || !record.statuses_valid {
        return Err(invalid_monitor_record("validate_monitor_registry"));
    }
    let mut index: usize = 0;
    while index < record.monitors.len()
        invariant
            index <= record.monitors.len(),
            allowed.wf(),
            forall|i: int|
                0 <= i < index ==> (#[trigger] record.monitors@[i]).policy is Some
                    && allowed@.dom().contains(record.monitors@[i].instance_alias@),
            forall|i: int|
                0 < i < index ==> text_less(
                    record.monitors@[i - 1].instance_alias@,
                    (#[trigger] record.monitors@[i]).instance_alias@,
                ),
        decreases record.monitors.len() - index,
    {
        let status = &record.monitors[index];
        if status.policy.is_none() || !allowed.contains(&status.instance_alias) {
            assert(record.monitors@[index as int].policy is None || !allowed@.dom().contains(
                record.monitors@[index as int].instance_alias@,
            ));
            return Err(invalid_monitor_record("validate_monitor_registry"));
        }
        if index > 0 && !sorts_before(
            record.monitors[index - 1].instance_alias.as_str(),
            status.instance_alias.as_str(),
        ) {
            assert(!text_less(
                record.monitors@[index - 1].instance_alias@,
                record.monitors@[index as int].instance_alias@,
            ));
            return Err(invalid_monitor_record("validate_monitor_registry"));
        }
        index += 1;
    }
    Ok(())
}

/// The error of the first record that is wrong. The revisions count up from
/// one. A record that cannot be decoded is nothing.
pub open spec fn journal_error(records: Seq<Option<MonitorRecord>>, allowed: Set<Seq<char>>) -> Option<
    RuntimeHostError,
>
    decreases records.len(),
{
    if records.len() == 0 {
        None
    } else {
        let earlier = journal_error(records.drop_last(), allowed);
        if earlier is Some {
            earlier
        } else {
            match records.last() {
                None => Some(record_invalid("read_monitor_registry")),
                Some(record) => if !record_valid(record, allowed) || record.revision
                    != records.len() {
                    Some(record_invalid("validate_monitor_registry"))
                } else {
                    None
                },
            }
        }
    }
}

proof fn lemma_journal_stops_at_error(
    records: Seq<Option<MonitorRecord>>,
    allowed: Set<Seq<char>>,
    count: int,
)
    requires
        0 <= count <= records.len(),
        journal_error(records.take(count), allowed) is Some,
    ensures
        journal_error(records, allowed) == journal_error(records.take(count), allowed),
    decreases records.len(),
{
    if count == records.len() {
        assert(records.take(count) =~= records);
    } else {
        assert(records.drop_last().take(count) =~= records.take(count));
        lemma_journal_stops_at_error(records.drop_last(), allowed, count);
    }
}

fn check_records(records: &Vec<Option<MonitorRecord>>, allowed: &OrderedMap<String, ()>) -> (result:
    RuntimeHostResult<()>)
    requires
        allowed.wf(),
    ensures
        match journal_error(records@, allowed@.dom()) {
            Some(error) => result == Err::<(), _>(error),
            None => result is Ok && (records@.len() > 0 ==> records@.last() is Some),
        },
{
    let ghost all = records@;
    let mut index: usize = 0;
    assert(all.take(0) =~= Seq::empty());
    while index < records.len()
        invariant
            index <= records.len(),
            allowed.wf(),
            all == records@,
            journal_error(all.take(index as int), allowed@.dom()) is None,
            index > 0 ==> all[index - 1] is Some,
        decreases records.len() - index,
    {
        proof {
            let taken = all.take(index + 1);
            assert(taken.drop_last() =~= all.take(index as int));
            assert(taken.last() == all[index as int]);
            if journal_error(taken, allowed@.dom()) is Some {
                lemma_journal_stops_at_error(all, allowed@.dom(), index + 1);
            }
        }
        match &records[index] {
            None => {
                return Err(invalid_monitor_record("read_monitor_registry"));
            },
            Some(record) => {
                validate_record(record, allowed)?;
                if record.revision != index as u64 + 1 {
                    return Err(invalid_monitor_record("validate_monitor_registry"));
                }
            },
        }
        index += 1;
    }
    assert(all.take(all.len() as int) =~= all);
    Ok(())
}

/// The journal file as it was read.
#[derive(Debug)]
pub enum JournalFile {
    Absent,
    /// The length that was announced, the bytes that came, and the lines that
    /// `split_journal` finds in them, decoded; nothing where the bytes are no
    /// text.
    Present { length: u64, content: Vec<u8>, records: Option<Vec<Option<MonitorRecord>>> },
}

/// The journal file may be read only if it is not too long.
pub fn check_journal_length(length: u64, maximum: u64) -> (result: RuntimeHostResult<()>)
    ensures
        result == if length <= maximum {
            Ok::<(), RuntimeHostError>(())
        } else {
            Err(monitor_fatal("monitor_journal_too_large", "read_monitor_registry"))
        },
{
    if length > maximum {
        return Err(monitor_error("monitor_journal_too_large", "read_monitor_registry"));
    }
    Ok(())
}

/// What the journal file says: an empty import where it is absent or empty,
/// else its last record.
pub open spec fn snapshot_of(file: JournalFile, allowed: Set<Seq<char>>) -> Result<
    ImportView,
    RuntimeHostError,
> {
    match file {
        JournalFile::Absent => Ok(
            ImportView { source: None, revision: 0, instances: Seq::empty() },
        ),
        JournalFile::Present { length, content, records } => {
            let source = Some((hex_text(sha256_of(content@)), length));
            if content@.len() != length {
                Err(monitor_fatal("monitor_source_changed", "read_monitor_registry"))
            } else if content@.len() == 0 {
                Ok(ImportView { source, revision: 0, instances: Seq::empty() })
            } else if content@.last() != 10 || records is None {
                Err(record_invalid("read_monitor_registry"))
            } else {
                match journal_error((records->0)@, allowed) {
                    Some(fault) => Err(fault),
                    None => if (records->0)@.len() == 0 {
                        Err(record_invalid("read_monitor_registry"))
                    } else {
                        Ok(
                            ImportView {
                                source,
                                revision: ((records->0)@.last()->0).revision,
                                instances: status_views(((records->0)@.last()->0).monitors@),
                            },
                        )
                    },
                }
            }
        },
    }
}

/// Reads what the journal file says.
pub fn read_legacy_snapshot(file: JournalFile, allowed: &OrderedMap<String, ()>) -> (result:
    RuntimeHostResult<RuntimeMonitorImport>)
    requires
        allowed.wf(),
    ensures
        match snapshot_of(file, allowed@.dom()) {
            Ok(snapshot) => result matches Ok(import) && import@ == snapshot,
            Err(fault) => result matches Err(error) && error == fault,
        },
{
    let (length, content, records) = match file {
        JournalFile::Absent => {
            let import = RuntimeMonitorImport { source: None, revision: 0, instances: Vec::new() };
            assert(import@.instances =~= Seq::empty());
            return Ok(import);
        },
        JournalFile::Present { length, content, records } => (length, content, records),
    };
    if content.len() as u64 != length {
        return Err(monitor_error("monitor_source_changed", "read_monitor_registry"));
    }
    let source = Some(
        RuntimeMonitorJournalSource { sha256: sha256_hex(content.as_slice()), length },
    );
    if content.len() == 0 {
        let import = RuntimeMonitorImport { source, revision: 0, instances: Vec::new() };
        assert(import@.instances =~= Seq::empty());
        return Ok(import);
    }
    if content[content.len() - 1] != 10 {
        return Err(invalid_monitor_record("read_monitor_registry"));
    }
    let records = match records {
        Some(records) => records,
        None => {
            return Err(invalid_monitor_record("read_monitor_registry"));
        },
    };
    check_records(&records, allowed)?;
    if records.len() == 0 {
        return Err(invalid_monitor_record("read_monitor_registry"));
    }
    match &records[records.len() - 1] {
        Some(record) => Ok(
            RuntimeMonitorImport {
                source,
                revision: record.revision,
                instances: copy_statuses(&record.monitors),
            },
        ),
        None => Err(invalid_monitor_record("read_monitor_registry")),
    }
}

/// Whether the failure to open the registry is recorded: not where the ledger
/// itself failed.
pub fn records_restore_failure(error: &RuntimeHostError) -> (records: bool)
    ensures
        records == (error.projection != RuntimeErrorCode::LedgerFailure),
{
    error.projection != RuntimeErrorCode::LedgerFailure
}

/// No configuration is newer than the registry.
pub open spec fn versions_bounded(registry: RegistryView) -> bool {
    forall|alias: Seq<char>| #[trigger]
        registry.configuration_versions.contains_key(alias)
            ==> registry.configuration_versions[alias] <= registry.revision
}

/// A prepared change to a policy, once recorded, is accepted and is what the
/// registry then says; where nothing changes, it says what it said.
pub proof fn law_prepared_configuration_applies(
    registry: RegistryView,
    alias: Seq<char>,
    policy: Option<PolicyView>,
    scheduled: Option<StateView>,
)
    requires
        registry.imported is Some,
        registry.monitors.contains_key(alias) ==> registry.monitors[alias].instance_alias == alias,
    ensures
        registry.configure_change(alias, policy, scheduled) matches Ok(change) ==> {
            &&& registry.change_error(change) is None
            &&& registry.with_change(change).status_of(alias) == change.status
            &&& registry.with_change(change).status_of(alias).policy == policy
            &&& (!change.applied ==> registry.with_change(change) == registry)
        },
{
}

/// A prepared clearing, once recorded, is accepted and leaves the instance
/// without a policy.
pub proof fn law_prepared_clearing_applies(registry: RegistryView, alias: Seq<char>)
    requires
        registry.imported is Some,
    ensures
        registry.clear_change(alias) matches Ok(change) ==> {
            &&& registry.change_error(change) is None
            &&& registry.with_change(change).status_of(alias) == unconfigured_status(alias)
            &&& (!change.applied ==> registry.with_change(change) == registry)
        },
{
}

/// The result of a probe is applied exactly while the instance still has the
/// configuration version, the policy and the state that the probe was taken
/// with. A probe that is overtaken overwrites nothing: its record holds the
/// current status and moves no revision. One that is not moves the revision by
/// one and keeps the configuration version.
pub proof fn law_overtaken_probe_overwrites_nothing(
    registry: MonitorRegistry,
    probe: ProbeView,
    state: StateView,
    operation: &'static str,
    result: RuntimeHostResult<MonitorUpdate>,
)
    requires
        registry.wf(),
        update_is(
            result,
            registry.owner_epoch,
            registry@.probe_change(probe, Some(state), operation),
        ),
        result is Ok,
    ensures
        ({
            let update = result->Ok_0;
            let change = update.change@;
            let alias = probe.instance_alias;
            let current = registry@.status_of(alias);
            &&& update.changed == change.applied
            &&& change.applied <==> registry@.version(alias) == probe.configuration_version
                && current.policy == Some(probe.policy) && current.state == Some(probe.state)
            &&& change.previous_revision == registry@.revision
            &&& change.configuration_version == registry@.version(alias)
            &&& !change.applied ==> change.status == current && change.revision
                == change.previous_revision
            &&& change.applied ==> change.revision == change.previous_revision + 1
                && change.status == (StatusView {
                instance_alias: alias,
                policy: Some(probe.policy),
                state: Some(state),
            })
        }),
{
    let alias = probe.instance_alias;
    if registry@.monitors.contains_key(alias) {
        assert(registry.monitors@.contains_key(alias));
    }
}

/// A probe whose instance has moved on changes nothing, and its record is
/// accepted all the same.
pub proof fn law_overtaken_probe_changes_nothing(
    registry: RegistryView,
    probe: ProbeView,
    state: StateView,
    operation: &'static str,
)
    requires
        registry.imported is Some,
        registry.allowed_aliases.contains(probe.instance_alias),
        registry.monitors.contains_key(probe.instance_alias)
            ==> registry.monitors[probe.instance_alias].instance_alias == probe.instance_alias,
        !registry.probe_is_current(probe),
    ensures
        registry.probe_change(probe, Some(state), operation) matches Ok(change)
            && !change.applied && registry.change_error(change) is None && registry.with_change(
            change,
        ) == registry,
{
}

/// A new configuration outdates every probe that was taken before it, even one
/// of the same policy and schedule.
pub proof fn law_reconfiguration_outdates_probes(
    registry: RegistryView,
    change: ChangeView,
    probe: ProbeView,
)
    requires
        versions_bounded(registry),
        change.applied,
        change.kind != RuntimeMonitorChangeKind::Probe,
        registry.change_to(change.kind, change.status, true, None, None) == Ok::<
            ChangeView,
            RuntimeHostError,
        >(change),
        probe.instance_alias == change.status.instance_alias,
        probe.configuration_version <= registry.revision,
    ensures
        versions_bounded(registry.with_change(change)),
        !registry.with_change(change).probe_is_current(probe),
{
}

/// A batch of due probes is never larger than wanted, and all of it is due.
pub proof fn law_due_batch_is_bounded(
    entries: Seq<(String, RuntimeMonitorInstanceStatus)>,
    now_unix_ms: u64,
    maximum: int,
)
    requires
        maximum >= 0,
    ensures
        first_due(entries, now_unix_ms, maximum).len() <= maximum,
        forall|i: int|
            0 <= i < first_due(entries, now_unix_ms, maximum).len() ==> is_due(now_unix_ms)(
                #[trigger] first_due(entries, now_unix_ms, maximum)[i],
            ),
    decreases entries.len(),
{
    if entries.len() > 0 {
        law_due_batch_is_bounded(entries.drop_last(), now_unix_ms, maximum);
    }
}

/// Once the import of a journal file is recorded, recovery from the same file
/// finds it there and records nothing again.
pub proof fn law_import_is_recorded_once(
    owner_epoch: OwnerEpoch,
    allowed: Set<Seq<char>>,
    max_instances: int,
    events: Seq<MonitorEvent>,
    file: JournalFile,
    event: MonitorEvent,
)
    requires
        recovered_registry(owner_epoch, allowed, max_instances, events, file) matches Ok(
            (_, Some(_)),
        ),
        event.fact matches Some(RuntimeStateFact::MonitorImported { import, .. }) && Some(import@)
            == (recovered_registry(owner_epoch, allowed, max_instances, events, file)->Ok_0).1,
        empty_registry(owner_epoch, allowed).with_events(events.push(event)).1 is Ok,
    ensures
        recovered_registry(owner_epoch, allowed, max_instances, events.push(event), file) matches Ok(
            (_, None),
        ),
{
    let longer = events.push(event);
    assert(longer.drop_last() =~= events);
    assert(longer.last() == event);
    let before = empty_registry(owner_epoch, allowed).with_events(events).0;
    if let RuntimeStateFact::MonitorImported { import, .. } = event.fact->0 {
        lemma_import_keeps_instances(before, import@.instances, import@.revision);
    }
}

proof fn lemma_import_keeps_instances(
    registry: RegistryView,
    instances: Seq<StatusView>,
    revision: u64,
)
    ensures
        registry.with_instances(instances, revision).0.allowed_aliases == registry.allowed_aliases,
        registry.with_instances(instances, revision).0.owner_epoch == registry.owner_epoch,
    decreases instances.len(),
{
    if instances.len() > 0 {
        lemma_import_keeps_instances(registry, instances.drop_last(), revision);
    }
}

/// Applying two pages of events one after the other is applying them as one
/// page.
pub proof fn law_pages_are_applied_as_one(
    registry: RegistryView,
    first: Seq<MonitorEvent>,
    second: Seq<MonitorEvent>,
)
    ensures
        registry.with_events(first + second) == match registry.with_events(first) {
            (between, Ok(_)) => between.with_events(second),
            (between, Err(error)) => (between, Err(error)),
        },
    decreases second.len(),
{
    if second.len() == 0 {
        assert(first + second =~= first);
    } else {
        law_pages_are_applied_as_one(registry, first, second.drop_last());
        assert((first + second).drop_last() =~= first + second.drop_last());
        assert((first + second).last() == second.last());
    }
}

/// A recorded change is taken exactly where an import was taken before it, it
/// follows the registry's revision, and it is about an allowed instance; one
/// that changes nothing, or that ends a probe, has to know the instance's
/// configuration, and one that changes nothing its status too.
pub proof fn law_changes_follow_the_revision(registry: RegistryView, change: ChangeView)
    ensures
        registry.change_error(change) is None <==> {
            let alias = change.status.instance_alias;
            &&& registry.imported is Some
            &&& change.previous_revision == registry.revision
            &&& registry.allowed_aliases.contains(alias)
            &&& !change.applied || change.kind == RuntimeMonitorChangeKind::Probe
                ==> change.configuration_version == registry.version(alias)
            &&& !change.applied ==> change.status == registry.status_of(alias)
        },
{
}

/// A change that applies leaves its instance as it says, configured or not, and
/// no other instance is touched.
pub proof fn law_change_touches_its_instance_only(
    registry: RegistryView,
    change: ChangeView,
    other: Seq<char>,
)
    requires
        other != change.status.instance_alias,
    ensures
        ({
            let after = registry.with_change(change);
            let alias = change.status.instance_alias;
            &&& after.revision == change.revision
            &&& after.status_of(other) == registry.status_of(other)
            &&& after.version(other) == registry.version(other)
            &&& change.applied && change.status.policy is Some ==> after.status_of(alias)
                == change.status && after.version(alias) == change.configuration_version
            &&& change.applied && change.status.policy is None ==> after.status_of(alias).policy
                is None && after.status_of(alias).state is None
            &&& !change.applied ==> after.status_of(alias) == registry.status_of(alias)
            &&& after.imported == registry.imported && after.allowed_aliases
                == registry.allowed_aliases
        }),
{
}

/// Only an event of the runtime itself, valid and newer than the last one,
/// changes the registry; an event about nothing of it is passed over.
pub proof fn law_only_runtime_events_count(registry: RegistryView, event: MonitorEvent)
    ensures
        event.fact is None ==> registry.with_event(event) == (registry, Ok::<(), RuntimeHostError>(
            (),
        )),
        event.fact matches Some(fact) && !(fact is Observed) && registry.with_event(event).1 is Ok
            ==> {
            &&& event.origin.module == EventParty::Runtime
            &&& event.origin.source == EventParty::Runtime
            &&& event.origin.actor == EventParty::Runtime
            &&& event.sequence > registry.last_sequence
            &&& event.fact_valid
            &&& registry.with_event(event).0.last_sequence == event.sequence
        },
{
}

/// A configuration is prepared only of an allowed instance, with a policy; it
/// applies exactly where the policy is not the one the instance has, and then
/// moves the revision by one and takes it as the configuration's version.
pub proof fn law_configuration_applies_when_new(
    registry: RegistryView,
    alias: Seq<char>,
    policy: PolicyView,
    scheduled: StateView,
)
    requires
        registry.allowed_aliases.contains(alias),
        registry.revision < u64::MAX,
        registry.monitors.contains_key(alias) ==> registry.monitors[alias].instance_alias == alias
            && registry.monitors[alias].policy is Some,
    ensures
        registry.configure_change(alias, Some(policy), Some(scheduled)) matches Ok(change) && {
            &&& change.applied <==> registry.status_of(alias).policy != Some(policy)
            &&& change.applied ==> change.revision == registry.revision + 1
                && change.configuration_version == change.revision && change.status.state == Some(
                scheduled,
            ) && change.status.policy == Some(policy)
            &&& !change.applied ==> change.revision == registry.revision && change.status
                == registry.status_of(alias)
            &&& change.status.instance_alias == alias
            &&& change.previous_revision == registry.revision
        },
        !registry.allowed_aliases.contains(alias) ==> registry.configure_change(
            alias,
            Some(policy),
            Some(scheduled),
        ) is Err,
{
}

/// An instance of another host is neither configured nor cleared nor probed.
pub proof fn law_foreign_instances_are_refused(
    registry: RegistryView,
    alias: Seq<char>,
    policy: Option<PolicyView>,
    scheduled: Option<StateView>,
    probe: ProbeView,
    operation: &'static str,
)
    requires
        !registry.allowed_aliases.contains(alias),
        probe.instance_alias == alias,
    ensures
        registry.configure_change(alias, policy, scheduled) matches Err(error) && error.code
            == "monitor_instance_unknown",
        registry.clear_change(alias) matches Err(error) && error.code == "monitor_instance_unknown",
        registry.probe_change(probe, scheduled, operation) is Err,
{
}

/// A clearing applies exactly where the instance was configured.
pub proof fn law_clearing_applies_when_configured(registry: RegistryView, alias: Seq<char>)
    requires
        registry.allowed_aliases.contains(alias),
        registry.revision < u64::MAX,
    ensures
        registry.clear_change(alias) matches Ok(change) && {
            &&& change.applied <==> registry.monitors.contains_key(alias)
            &&& change.status.policy is None && change.status.state is None
            &&& change.revision == registry.revision + if change.applied {
                1int
            } else {
                0
            }
        },
{
}

/// An instance that is due is left out of a batch only where the batch is full,
/// and the batch keeps the order of the instances.
pub proof fn law_due_instances_are_not_passed_over(
    entries: Seq<(String, RuntimeMonitorInstanceStatus)>,
    entry: (String, RuntimeMonitorInstanceStatus),
    now_unix_ms: u64,
    maximum: int,
)
    ensures
        ({
            let before = first_due(entries, now_unix_ms, maximum);
            let due = entry.1.state matches Some(state) && state.next_due_unix_ms <= now_unix_ms;
            first_due(entries.push(entry), now_unix_ms, maximum) == if due && before.len()
                < maximum {
                before.push(entry)
            } else {
                before
            }
        }),
        first_due(Seq::empty(), now_unix_ms, maximum).len() == 0,
{
    assert(entries.push(entry).drop_last() =~= entries);
}

/// A journal is valid only where its records are numbered from one on without
/// a gap, each is of this schema, and each names only allowed and configured
/// instances, in order and once.
pub proof fn law_journal_has_no_gap(
    records: Seq<Option<MonitorRecord>>,
    allowed: Set<Seq<char>>,
    index: int,
)
    requires
        journal_error(records, allowed) is None,
        0 <= index < records.len(),
    ensures
        records[index] matches Some(record) && {
            &&& record.revision == index + 1
            &&& record.schema_version@ == MONITOR_SCHEMA_VERSION@
            &&& forall|i: int|
                0 <= i < record.monitors@.len() ==> (#[trigger] record.monitors@[i]).policy is Some
                    && allowed.contains(record.monitors@[i].instance_alias@)
        },
    decreases records.len(),
{
    if index < records.len() - 1 {
        assert(records.drop_last()[index] == records[index]);
        law_journal_has_no_gap(records.drop_last(), allowed, index);
    }
}

/// What is imported of a journal file is its last record, bound to the bytes
/// of the file; an absent or empty file imports no instance, and one that was
/// cut off is refused.
pub proof fn law_import_is_the_last_record(
    length: u64,
    content: Vec<u8>,
    records: Option<Vec<Option<MonitorRecord>>>,
    allowed: Set<Seq<char>>,
)
    ensures
        ({
            let file = JournalFile::Present { length, content, records };
            &&& snapshot_of(file, allowed) matches Ok(import) ==> {
                &&& content@.len() == length
                &&& import.source is Some
                &&& content@.len() > 0 ==> content@.last() == 10 && (records->0)@.len() > 0 && (
                (records->0)@.last() matches Some(record) && import.revision == record.revision
                    && import.instances.len() == record.monitors@.len())
                &&& content@.len() == 0 ==> import.revision == 0 && import.instances.len() == 0
            }
        }),
        snapshot_of(JournalFile::Absent, allowed) matches Ok(import) && import.source is None
            && import.revision == 0 && import.instances.len() == 0,
{
    if let Some(list) = records {
        if journal_error(list@, allowed) is None && list@.len() > 0 {
            law_journal_has_no_gap(list@, allowed, list@.len() - 1);
        }
    }
}

/// An import is taken once, before any change, and puts every instance that it
/// names in place.
pub proof fn law_import_comes_first(registry: RegistryView, import: ImportView)
    ensures
        registry.imported is Some || registry.revision != 0 ==> registry.with_import(import).1
            is Err && registry.with_import(import).0 == registry,
        registry.with_import(import).1 is Ok ==> registry.with_import(import).0.imported == Some(
            import,
        ) && registry.with_import(import).0.revision == import.revision,
{
}

} // verus!
