//! Which generation the ledger makes active: transitions with their intents,
//! and the one-time migration of the pointer file.

use vstd::prelude::*;

use crate::error::{RuntimeHostError, RuntimeHostResult};
use crate::ordered_map::OrderedMap;
use crate::policy::catalog::{fatal, policy_fatal};
use crate::policy::generation::{
    follow_pointer, pointer_error, CatalogPointer, CatalogShelf, GenerationView, LoadedCatalog,
    ACTIVE_POINTER_STATE_KEY, CATALOG_STATE_SCHEMA,
};
use crate::text::{optional_text, same_optional_text, same_text};

verus! {

/// Which part of the system an event names.
#[derive(Debug, Clone, Copy, PartialEq, Eq, Structural)]
pub enum Party {
    Runtime,
    Policy,
    Other(u32),
}

/// Where an event comes from.
#[derive(Debug, Clone, Copy, PartialEq, Eq, Structural)]
pub struct CatalogEventOrigin {
    pub source: Party,
    pub module: Party,
    pub actor: Party,
}

/// A change of the active generation, as an event tells it.
#[derive(Debug, Clone)]
pub struct CatalogTransition {
    pub catalog_id: String,
    pub catalog_version: u64,
    pub catalog_hash: String,
    pub previous_catalog_hash: Option<String>,
    /// The approval behind the change, encoded.
    pub promotion: Option<String>,
}

/// The value of a transition.
pub struct TransitionView {
    pub catalog_id: Seq<char>,
    pub catalog_version: u64,
    pub catalog_hash: Seq<char>,
    pub previous_catalog_hash: Option<Seq<char>>,
    pub promotion: Option<Seq<char>>,
}

impl View for CatalogTransition {
    type V = TransitionView;

    open spec fn view(&self) -> TransitionView {
        TransitionView {
            catalog_id: self.catalog_id@,
            catalog_version: self.catalog_version,
            catalog_hash: self.catalog_hash@,
            previous_catalog_hash: optional_text(self.previous_catalog_hash),
            promotion: optional_text(self.promotion),
        }
    }
}

/// A migration of a state document, as an event tells it.
#[derive(Debug, Clone)]
pub struct StateMigration {
    pub migration_id: String,
    pub state_key: String,
    pub to_schema_version: String,
    /// Everything else the migration carries, encoded.
    pub remainder: String,
}

/// The value of a migration.
pub struct MigrationView {
    pub migration_id: Seq<char>,
    pub state_key: Seq<char>,
    pub to_schema_version: Seq<char>,
    pub remainder: Seq<char>,
}

impl View for StateMigration {
    type V = MigrationView;

    open spec fn view(&self) -> MigrationView {
        MigrationView {
            migration_id: self.migration_id@,
            state_key: self.state_key@,
            to_schema_version: self.to_schema_version@,
            remainder: self.remainder@,
        }
    }
}

impl StateMigration {
    pub fn same(&self, other: &Self) -> (same: bool)
        ensures
            same == (self@ == other@),
    {
        same_text(self.migration_id.as_str(), other.migration_id.as_str()) && same_text(
            self.state_key.as_str(),
            other.state_key.as_str(),
        ) && same_text(self.to_schema_version.as_str(), other.to_schema_version.as_str())
            && same_text(self.remainder.as_str(), other.remainder.as_str())
    }
}

#[derive(Debug)]
pub enum CatalogEventPayload {
    /// A migration, and the pointer in the document that it wrote: an error
    /// where the document cannot be had, nothing where it cannot be decoded.
    Migrated {
        migration: StateMigration,
        document: Result<Option<CatalogPointer>, RuntimeHostError>,
    },
    TransitionIntent { transition: CatalogTransition },
    Activated { transition: CatalogTransition },
    RolledBack { transition: CatalogTransition },
    TransitionFailed { transition: CatalogTransition },
    Other,
}

#[derive(Debug)]
pub struct CatalogEvent {
    pub origin: CatalogEventOrigin,
    pub action_id: Option<String>,
    /// The links of the event, encoded.
    pub links: String,
    /// The action of the event, encoded.
    pub action: String,
    pub payload: CatalogEventPayload,
}

/// The generation that is active, by id, version and hash.
pub type ActiveIdentity = (Seq<char>, u64, Seq<char>);

/// What the events so far say.
pub struct SourceView {
    pub current: Option<ActiveIdentity>,
    /// The intents without an outcome, by their actions.
    pub intents: Map<Seq<char>, CatalogEvent>,
    pub migrations: Set<Seq<char>>,
}

pub open spec fn source_error(code: &'static str) -> RuntimeHostError {
    policy_fatal(code, "project_policy_catalog")
}

/// The event comes from the runtime, by one of its modules.
pub open spec fn comes_from(origin: CatalogEventOrigin, module: Party) -> bool {
    origin.source == Party::Runtime && origin.module == module && origin.actor == Party::Runtime
}

/// The transition that an event tells of.
pub open spec fn transition_of(payload: CatalogEventPayload) -> TransitionView {
    match payload {
        CatalogEventPayload::TransitionIntent { transition } => transition@,
        CatalogEventPayload::Activated { transition } => transition@,
        CatalogEventPayload::RolledBack { transition } => transition@,
        CatalogEventPayload::TransitionFailed { transition } => transition@,
        _ => arbitrary(),
    }
}

/// An outcome that is not the one its intent announced.
pub open spec fn contradicts(outcome: CatalogEvent, intent: CatalogEvent) -> bool {
    outcome.origin != intent.origin || outcome.links@ != intent.links@ || outcome.action@
        != intent.action@ || transition_of(outcome.payload) != transition_of(intent.payload)
}

/// The error of a change that does not follow from the active generation.
pub open spec fn succession_error(
    current: Option<ActiveIdentity>,
    transition: TransitionView,
    rollback: bool,
) -> Option<RuntimeHostError> {
    let current_hash = match current {
        Some(identity) => Some(identity.2),
        None => None,
    };
    if transition.previous_catalog_hash != current_hash {
        Some(source_error("catalog_previous_source_mismatch"))
    } else {
        match current {
            Some((id, version, _)) => if id != transition.catalog_id || (if rollback {
                transition.catalog_version >= version
            } else {
                transition.catalog_version <= version
            }) {
                Some(source_error("catalog_generation_source_conflict"))
            } else {
                None
            },
            None => if rollback {
                Some(source_error("catalog_rollback_source_missing"))
            } else {
                None
            },
        }
    }
}

pub open spec fn identity_of(generation: GenerationView) -> ActiveIdentity {
    (generation.catalog_id, generation.catalog_version, generation.catalog_hash)
}

impl SourceView {
    pub open spec fn empty() -> SourceView {
        SourceView { current: None, intents: Map::empty(), migrations: Set::empty() }
    }

    pub open spec fn with_migration(
        self,
        shelf: CatalogShelf,
        origin: CatalogEventOrigin,
        migration: MigrationView,
        document: Result<Option<CatalogPointer>, RuntimeHostError>,
    ) -> Result<SourceView, RuntimeHostError> {
        if migration.state_key != ACTIVE_POINTER_STATE_KEY@ {
            Ok(self)
        } else if self.migrations.contains(migration.migration_id) || !comes_from(
            origin,
            Party::Runtime,
        ) || migration.to_schema_version != CATALOG_STATE_SCHEMA@ {
            Err(source_error("catalog_migration_source_conflict"))
        } else {
            match document {
                Err(error) => Err(error),
                Ok(pointer) => match pointer_error(pointer, shelf, "project_policy_catalog") {
                    Some(error) => Err(error),
                    None => {
                        let identity = identity_of(pointer->0.generation@);
                        if self.current is Some && self.current->0 != identity {
                            Err(source_error("catalog_migration_source_conflict"))
                        } else {
                            Ok(
                                SourceView {
                                    current: Some(identity),
                                    migrations: self.migrations.insert(migration.migration_id),
                                    ..self
                                },
                            )
                        }
                    },
                },
            }
        }
    }

    pub open spec fn with_intent(self, event: CatalogEvent) -> Result<
        SourceView,
        RuntimeHostError,
    > {
        match event.action_id {
            None => Err(source_error("catalog_intent_identity_missing")),
            Some(action_id) => if !comes_from(event.origin, Party::Policy)
                || self.intents.contains_key(action_id@) {
                Err(source_error("catalog_intent_source_conflict"))
            } else {
                Ok(SourceView { intents: self.intents.insert(action_id@, event), ..self })
            },
        }
    }

    /// An outcome; only a success changes which generation is active.
    pub open spec fn with_outcome(self, event: CatalogEvent, success: bool, rollback: bool) ->
        Result<SourceView, RuntimeHostError> {
        let transition = transition_of(event.payload);
        match event.action_id {
            None => Err(source_error("catalog_outcome_identity_missing")),
            Some(action_id) => if !self.intents.contains_key(action_id@) {
                Err(source_error("catalog_outcome_intent_missing"))
            } else if contradicts(event, self.intents[action_id@]) {
                Err(source_error("catalog_outcome_source_conflict"))
            } else if !success {
                Ok(SourceView { intents: self.intents.remove(action_id@), ..self })
            } else if succession_error(self.current, transition, rollback) is Some {
                Err(succession_error(self.current, transition, rollback)->0)
            } else {
                Ok(
                    SourceView {
                        current: Some(
                            (
                                transition.catalog_id,
                                transition.catalog_version,
                                transition.catalog_hash,
                            ),
                        ),
                        intents: self.intents.remove(action_id@),
                        ..self
                    },
                )
            },
        }
    }

    pub open spec fn with_event(self, shelf: CatalogShelf, event: CatalogEvent) -> Result<
        SourceView,
        RuntimeHostError,
    > {
        match event.payload {
            CatalogEventPayload::Migrated { migration, document } => self.with_migration(
                shelf,
                event.origin,
                migration@,
                document,
            ),
            CatalogEventPayload::TransitionIntent { .. } => self.with_intent(event),
            CatalogEventPayload::Activated { .. } => self.with_outcome(event, true, false),
            CatalogEventPayload::RolledBack { .. } => self.with_outcome(event, true, true),
            CatalogEventPayload::TransitionFailed { .. } => self.with_outcome(event, false, false),
            CatalogEventPayload::Other => Ok(self),
        }
    }

    pub open spec fn with_events(self, shelf: CatalogShelf, events: Seq<CatalogEvent>) -> Result<
        SourceView,
        RuntimeHostError,
    >
        decreases events.len(),
    {
        if events.len() == 0 {
            Ok(self)
        } else {
            match self.with_events(shelf, events.drop_last()) {
                Err(error) => Err(error),
                Ok(earlier) => earlier.with_event(shelf, events.last()),
            }
        }
    }
}

/// The generation that the events make active.
pub open spec fn projected_source(shelf: CatalogShelf, events: Seq<CatalogEvent>) -> Result<
    Option<LoadedCatalog>,
    RuntimeHostError,
> {
    match SourceView::empty().with_events(shelf, events) {
        Err(error) => Err(error),
        Ok(source) => match source.current {
            None => Ok(None),
            Some((id, version, hash)) => match shelf.lookup(hash) {
                Err(error) => Err(error),
                Ok(loaded) => if loaded.generation.catalog_id@ != id
                    || loaded.generation.catalog_version != version {
                    Err(source_error("catalog_projection_identity_mismatch"))
                } else {
                    Ok(Some(loaded))
                },
            },
        },
    }
}

proof fn lemma_source_stops_at_error(
    source: SourceView,
    shelf: CatalogShelf,
    events: Seq<CatalogEvent>,
    count: int,
)
    requires
        0 <= count <= events.len(),
        source.with_events(shelf, events.take(count)) is Err,
    ensures
        source.with_events(shelf, events) == source.with_events(shelf, events.take(count)),
    decreases events.len(),
{
    if count == events.len() {
        assert(events.take(count) =~= events);
    } else {
        assert(events.drop_last().take(count) =~= events.take(count));
        lemma_source_stops_at_error(source, shelf, events.drop_last(), count);
    }
}

/// The transition of an event that has one.
fn event_transition(payload: &CatalogEventPayload) -> (transition: Option<&CatalogTransition>)
    ensures
        match *payload {
            CatalogEventPayload::Migrated { .. } => transition is None,
            CatalogEventPayload::Other => transition is None,
            _ => transition is Some && (transition->0)@ == transition_of(*payload),
        },
{
    match payload {
        CatalogEventPayload::TransitionIntent { transition } => Some(transition),
        CatalogEventPayload::Activated { transition } => Some(transition),
        CatalogEventPayload::RolledBack { transition } => Some(transition),
        CatalogEventPayload::TransitionFailed { transition } => Some(transition),
        _ => None,
    }
}

fn same_transition(left: &CatalogTransition, right: &CatalogTransition) -> (same: bool)
    ensures
        same == (left@ == right@),
{
    same_text(left.catalog_id.as_str(), right.catalog_id.as_str()) && left.catalog_version
        == right.catalog_version && same_text(
        left.catalog_hash.as_str(),
        right.catalog_hash.as_str(),
    ) && same_optional_text(&left.previous_catalog_hash, &right.previous_catalog_hash)
        && same_optional_text(&left.promotion, &right.promotion)
}

/// The active generation so far, and the intents and migrations seen. An
/// intent is kept by the position of its event.
struct SourceScan {
    current: Option<(String, u64, String)>,
    intents: OrderedMap<String, usize>,
    migrations: OrderedMap<String, ()>,
}

impl SourceScan {
    closed spec fn wf(&self, events: Seq<CatalogEvent>) -> bool {
        &&& self.intents.wf()
        &&& self.migrations.wf()
        &&& forall|id: Seq<char>| #[trigger]
            self.intents@.contains_key(id) ==> self.intents@[id] < events.len()
                && events[self.intents@[id] as int].payload is TransitionIntent
    }

    closed spec fn source(&self, events: Seq<CatalogEvent>) -> SourceView {
        SourceView {
            current: match self.current {
                Some((id, version, hash)) => Some((id@, version, hash@)),
                None => None,
            },
            intents: self.intents@.map_values(|index: usize| events[index as int]),
            migrations: self.migrations@.dom(),
        }
    }

    fn add_migration(
        &mut self,
        shelf: &CatalogShelf,
        event: &CatalogEvent,
        migration: &StateMigration,
        document: &Result<Option<CatalogPointer>, RuntimeHostError>,
        Ghost(events): Ghost<Seq<CatalogEvent>>,
    ) -> (result: RuntimeHostResult<()>)
        requires
            old(self).wf(events),
            shelf.wf(),
        ensures
            final(self).wf(events),
            match old(self).source(events).with_migration(
                *shelf,
                event.origin,
                migration@,
                *document,
            ) {
                Ok(after) => result == Ok::<(), RuntimeHostError>(()) && final(self).source(events)
                    == after,
                Err(error) => result == Err::<(), _>(error),
            },
    {
        if !same_text(migration.state_key.as_str(), ACTIVE_POINTER_STATE_KEY) {
            return Ok(());
        }
        if self.migrations.contains(&migration.migration_id) || event.origin.source
            != Party::Runtime || event.origin.module != Party::Runtime || event.origin.actor
            != Party::Runtime || !same_text(
            migration.to_schema_version.as_str(),
            CATALOG_STATE_SCHEMA,
        ) {
            return Err(fatal("catalog_migration_source_conflict", "project_policy_catalog"));
        }
        let pointer = match document {
            Ok(pointer) => pointer,
            Err(error) => {
                return Err(*error);
            },
        };
        let loaded = follow_pointer(pointer, shelf, "project_policy_catalog")?;
        let generation = &loaded.generation;
        if let Some((id, version, hash)) = &self.current {
            if !same_text(id.as_str(), generation.catalog_id.as_str()) || *version
                != generation.catalog_version || !same_text(
                hash.as_str(),
                generation.catalog_hash.as_str(),
            ) {
                return Err(fatal("catalog_migration_source_conflict", "project_policy_catalog"));
            }
        }
        self.current = Some(
            (
                generation.catalog_id.clone(),
                generation.catalog_version,
                generation.catalog_hash.clone(),
            ),
        );
        let ghost before = self.migrations@.dom();
        self.migrations.insert(migration.migration_id.clone(), ());
        assert(self.migrations@.dom() =~= before.insert(migration.migration_id@));
        Ok(())
    }

    fn add_intent(&mut self, events: &Vec<CatalogEvent>, index: usize) -> (result:
        RuntimeHostResult<()>)
        requires
            old(self).wf(events@),
            index < events@.len(),
            events@[index as int].payload is TransitionIntent,
        ensures
            final(self).wf(events@),
            match old(self).source(events@).with_intent(events@[index as int]) {
                Ok(after) => result == Ok::<(), RuntimeHostError>(()) && final(self).source(events@)
                    == after,
                Err(error) => result == Err::<(), _>(error),
            },
    {
        let event = &events[index];
        let action_id = match &event.action_id {
            Some(action_id) => action_id,
            None => {
                return Err(fatal("catalog_intent_identity_missing", "project_policy_catalog"));
            },
        };
        if event.origin.source != Party::Runtime || event.origin.module != Party::Policy
            || event.origin.actor != Party::Runtime || self.intents.contains(action_id) {
            return Err(fatal("catalog_intent_source_conflict", "project_policy_catalog"));
        }
        self.intents.insert(action_id.clone(), index);
        assert(self.source(events@).intents =~= old(self).source(events@).intents.insert(
            action_id@,
            *event,
        ));
        Ok(())
    }

    fn add_outcome(
        &mut self,
        events: &Vec<CatalogEvent>,
        index: usize,
        transition: &CatalogTransition,
        success: bool,
        rollback: bool,
    ) -> (result: RuntimeHostResult<()>)
        requires
            old(self).wf(events@),
            index < events@.len(),
            transition@ == transition_of(events@[index as int].payload),
        ensures
            final(self).wf(events@),
            match old(self).source(events@).with_outcome(
                events@[index as int],
                success,
                rollback,
            ) {
                Ok(after) => result == Ok::<(), RuntimeHostError>(()) && final(self).source(events@)
                    == after,
                Err(error) => result == Err::<(), _>(error),
            },
    {
        let event = &events[index];
        let action_id = match &event.action_id {
            Some(action_id) => action_id,
            None => {
                return Err(fatal("catalog_outcome_identity_missing", "project_policy_catalog"));
            },
        };
        let intent = match self.intents.remove(action_id) {
            Some(at) => &events[at],
            None => {
                return Err(fatal("catalog_outcome_intent_missing", "project_policy_catalog"));
            },
        };
        proof {
            let before = old(self).source(events@).intents;
            assert(before.contains_key(action_id@));
            assert(before[action_id@] == *intent);
            assert(self.source(events@).intents =~= before.remove(action_id@));
        }
        let announced = match event_transition(&intent.payload) {
            Some(announced) => same_transition(transition, announced),
            None => false,
        };
        if event.origin != intent.origin || !same_text(event.links.as_str(), intent.links.as_str())
            || !same_text(event.action.as_str(), intent.action.as_str()) || !announced {
            return Err(fatal("catalog_outcome_source_conflict", "project_policy_catalog"));
        }
        if !success {
            return Ok(());
        }
        let follows = match (&transition.previous_catalog_hash, &self.current) {
            (Some(previous), Some(current)) => same_text(previous.as_str(), current.2.as_str()),
            (None, None) => true,
            _ => false,
        };
        if !follows {
            return Err(fatal("catalog_previous_source_mismatch", "project_policy_catalog"));
        }
        match &self.current {
            Some((id, version, _)) => {
                let wrong_way = if rollback {
                    transition.catalog_version >= *version
                } else {
                    transition.catalog_version <= *version
                };
                if !same_text(id.as_str(), transition.catalog_id.as_str()) || wrong_way {
                    return Err(
                        fatal("catalog_generation_source_conflict", "project_policy_catalog"),
                    );
                }
            },
            None => {
                if rollback {
                    return Err(fatal("catalog_rollback_source_missing", "project_policy_catalog"));
                }
            },
        }
        self.current = Some(
            (
                transition.catalog_id.clone(),
                transition.catalog_version,
                transition.catalog_hash.clone(),
            ),
        );
        Ok(())
    }

    fn add_event(&mut self, shelf: &CatalogShelf, events: &Vec<CatalogEvent>, index: usize) -> (result:
        RuntimeHostResult<()>)
        requires
            old(self).wf(events@),
            shelf.wf(),
            index < events@.len(),
        ensures
            final(self).wf(events@),
            match old(self).source(events@).with_event(*shelf, events@[index as int]) {
                Ok(after) => result == Ok::<(), RuntimeHostError>(()) && final(self).source(events@)
                    == after,
                Err(error) => result == Err::<(), _>(error),
            },
    {
        let event = &events[index];
        match &event.payload {
            CatalogEventPayload::Migrated { migration, document } => self.add_migration(
                shelf,
                event,
                migration,
                document,
                Ghost(events@),
            ),
            CatalogEventPayload::TransitionIntent { .. } => self.add_intent(events, index),
            CatalogEventPayload::Activated { transition } => self.add_outcome(
                events,
                index,
                transition,
                true,
                false,
            ),
            CatalogEventPayload::RolledBack { transition } => self.add_outcome(
                events,
                index,
                transition,
                true,
                true,
            ),
            CatalogEventPayload::TransitionFailed { transition } => self.add_outcome(
                events,
                index,
                transition,
                false,
                false,
            ),
            CatalogEventPayload::Other => Ok(()),
        }
    }
}

/// The generation that the events of the ledger make active. Every change
/// needs its intent, follows the one before it, and moves the version in its
/// own direction.
pub fn project_catalog_source<'a>(shelf: &'a CatalogShelf, events: &Vec<CatalogEvent>) -> (result:
    RuntimeHostResult<Option<&'a LoadedCatalog>>)
    requires
        shelf.wf(),
    ensures
        match projected_source(*shelf, events@) {
            Err(error) => result matches Err(actual) && actual == error,
            Ok(None) => result matches Ok(active) && active is None,
            Ok(Some(loaded)) => result matches Ok(Some(active)) && *active == loaded,
        },
{
    let mut scan = SourceScan {
        current: None,
        intents: OrderedMap::new(),
        migrations: OrderedMap::new(),
    };
    let mut index: usize = 0;
    proof {
        assert(events@.take(0) =~= Seq::empty());
        assert(scan.source(events@).intents =~= Map::empty());
        assert(scan.source(events@).migrations =~= Set::empty());
    }
    while index < events.len()
        invariant
            index <= events.len(),
            shelf.wf(),
            scan.wf(events@),
            SourceView::empty().with_events(*shelf, events@.take(index as int)) == Ok::<
                SourceView,
                RuntimeHostError,
            >(scan.source(events@)),
        decreases events.len() - index,
    {
        proof {
            let taken = events@.take(index + 1);
            assert(taken.drop_last() =~= events@.take(index as int));
            assert(taken.last() == events@[index as int]);
            if SourceView::empty().with_events(*shelf, taken) is Err {
                lemma_source_stops_at_error(SourceView::empty(), *shelf, events@, index + 1);
            }
        }
        scan.add_event(shelf, events, index)?;
        index += 1;
    }
    assert(events@.take(events@.len() as int) =~= events@);
    match &scan.current {
        None => Ok(None),
        Some((id, version, hash)) => {
            let loaded = shelf.load_generation(hash.as_str())?;
            if !same_text(loaded.generation.catalog_id.as_str(), id.as_str())
                || loaded.generation.catalog_version != *version {
                return Err(fatal("catalog_projection_identity_mismatch", "project_policy_catalog"));
            }
            Ok(Some(loaded))
        },
    }
}

/// Without a migration among them, the events lead from generation to
/// generation of one catalog: a change that succeeds starts from the active
/// generation, and an activation raises the version while a rollback lowers
/// it.
pub proof fn law_versions_move_with_their_transition(
    source: SourceView,
    event: CatalogEvent,
    rollback: bool,
)
    requires
        source.current is Some,
    ensures
        source.with_outcome(event, true, rollback) matches Ok(after) ==> {
            let (id, version, hash) = source.current->0;
            let (next_id, next_version, next_hash) = after.current->0;
            &&& after.current is Some
            &&& next_id == id
            &&& (rollback ==> next_version < version)
            &&& (!rollback ==> next_version > version)
            &&& transition_of(event.payload).previous_catalog_hash == Some(hash)
        },
{
}

/// No outcome counts twice: once an intent has its outcome, another one for
/// the same action is refused.
pub proof fn law_outcome_counts_once(
    source: SourceView,
    event: CatalogEvent,
    success: bool,
    rollback: bool,
)
    ensures
        source.with_outcome(event, success, rollback) matches Ok(after) ==> after.with_outcome(
            event,
            success,
            rollback,
        ) == Err::<SourceView, RuntimeHostError>(source_error("catalog_outcome_intent_missing")),
{
}

/// The active generation, once the stored pointer and the ledger agree on it.
pub fn load_verified_active<'a>(
    source: RuntimeHostResult<Option<&'a LoadedCatalog>>,
    actual: RuntimeHostResult<Option<&'a LoadedCatalog>>,
) -> (result: RuntimeHostResult<Option<&'a LoadedCatalog>>)
    ensures
        match (source, actual) {
            (Err(error), _) => result matches Err(refusal) && refusal == error,
            (_, Err(error)) => result matches Err(refusal) && refusal == error,
            (Ok(source), Ok(actual)) => if optional_generation(source) == optional_generation(
                actual,
            ) {
                result == Ok::<Option<&'a LoadedCatalog>, RuntimeHostError>(actual)
            } else {
                result matches Err(refusal) && refusal == policy_fatal(
                    "catalog_active_source_mismatch",
                    "load_active_catalog",
                )
            },
        },
{
    let source = source?;
    let actual = actual?;
    let agree = match (source, actual) {
        (Some(source), Some(actual)) => source.generation.same(&actual.generation),
        (None, None) => true,
        _ => false,
    };
    if !agree {
        return Err(fatal("catalog_active_source_mismatch", "load_active_catalog"));
    }
    Ok(actual)
}

pub open spec fn optional_generation(loaded: Option<&LoadedCatalog>) -> Option<GenerationView> {
    match loaded {
        Some(loaded) => Some(loaded.generation@),
        None => None,
    }
}

/// An intent of the policy that has an identity is remembered, unless its
/// action is pending already; the active generation stays.
pub proof fn law_intent_is_remembered(source: SourceView, event: CatalogEvent)
    requires
        event.action_id is Some,
    ensures
        source.with_intent(event) is Ok <==> event.origin.source == Party::Runtime
            && event.origin.module == Party::Policy && event.origin.actor == Party::Runtime
            && !source.intents.contains_key((event.action_id->0)@),
        source.with_intent(event) matches Ok(after) ==> after.current == source.current
            && after.migrations == source.migrations && after.intents.contains_key(
            (event.action_id->0)@,
        ) && after.intents[(event.action_id->0)@] == event,
        forall|other: Seq<char>|
            #![trigger source.intents.contains_key(other)]
            other != (event.action_id->0)@ ==> (source.with_intent(event) matches Ok(after) ==> (
            after.intents.contains_key(other) <==> source.intents.contains_key(other))
                && after.intents[other] == source.intents[other]),
{
}

/// A change that failed leaves the active generation as it was, and its
/// intent is pending no longer.
pub proof fn law_failed_change_keeps_the_generation(
    source: SourceView,
    event: CatalogEvent,
    rollback: bool,
)
    ensures
        source.with_outcome(event, false, rollback) matches Ok(after) ==> after.current
            == source.current && after.migrations == source.migrations && event.action_id is Some
            && !after.intents.contains_key((event.action_id->0)@),
{
}

/// A change that succeeded makes its generation the active one, when the
/// outcome says what its intent said and the change starts from the active
/// generation in the right direction.
pub proof fn law_successful_change_is_active(
    source: SourceView,
    event: CatalogEvent,
    rollback: bool,
)
    requires
        event.action_id is Some,
        source.intents.contains_key((event.action_id->0)@),
    ensures
        source.with_outcome(event, true, rollback) matches Ok(after) ==> after.current == Some(
            (
                transition_of(event.payload).catalog_id,
                transition_of(event.payload).catalog_version,
                transition_of(event.payload).catalog_hash,
            ),
        ) && !after.intents.contains_key((event.action_id->0)@) && after.migrations
            == source.migrations,
        source.with_outcome(event, true, rollback) is Ok ==> event.origin
            == source.intents[(event.action_id->0)@].origin && event.links@
            == source.intents[(event.action_id->0)@].links@ && event.action@
            == source.intents[(event.action_id->0)@].action@ && transition_of(event.payload)
            == transition_of(source.intents[(event.action_id->0)@].payload),
        !contradicts(event, source.intents[(event.action_id->0)@]) && source.current is None
            && transition_of(event.payload).previous_catalog_hash is None ==> (source.with_outcome(
            event,
            true,
            rollback,
        ) is Ok <==> !rollback),
        !contradicts(event, source.intents[(event.action_id->0)@]) && source.current is Some
            && transition_of(event.payload).previous_catalog_hash == Some((source.current->0).2)
            && transition_of(event.payload).catalog_id == (source.current->0).0 ==> (
        source.with_outcome(event, true, false) is Ok <==> transition_of(
            event.payload,
        ).catalog_version > (source.current->0).1) && (source.with_outcome(event, true, true) is Ok
            <==> transition_of(event.payload).catalog_version < (source.current->0).1),
{
}

/// A change that does not start from the active generation is refused.
pub proof fn law_change_starts_from_the_active_generation(
    source: SourceView,
    event: CatalogEvent,
    rollback: bool,
)
    ensures
        source.with_outcome(event, true, rollback) is Ok ==> transition_of(
            event.payload,
        ).previous_catalog_hash == (match source.current {
            Some(identity) => Some(identity.2),
            None => None,
        }),
{
}

/// A migration of the active pointer counts once, comes from the runtime and
/// leaves the active generation where it is; other migrations do not touch the
/// catalog.
pub proof fn law_migration_keeps_the_generation(
    source: SourceView,
    shelf: CatalogShelf,
    origin: CatalogEventOrigin,
    migration: MigrationView,
    document: Result<Option<CatalogPointer>, RuntimeHostError>,
)
    ensures
        migration.state_key != ACTIVE_POINTER_STATE_KEY@ ==> source.with_migration(
            shelf,
            origin,
            migration,
            document,
        ) == Ok::<SourceView, RuntimeHostError>(source),
        source.with_migration(shelf, origin, migration, document) matches Ok(after)
            ==> after.intents == source.intents && (source.current is Some ==> after.current
            == source.current) && (migration.state_key == ACTIVE_POINTER_STATE_KEY@
            ==> !source.migrations.contains(migration.migration_id) && after.migrations.contains(
            migration.migration_id,
        ) && after.current is Some && migration.to_schema_version == CATALOG_STATE_SCHEMA@
            && origin.source == Party::Runtime && origin.module == Party::Runtime && origin.actor
            == Party::Runtime),
        source.with_migration(shelf, origin, migration, document) matches Ok(after) ==> (
        migration.state_key == ACTIVE_POINTER_STATE_KEY@ ==> after.with_migration(
            shelf,
            origin,
            migration,
            document,
        ) == Err::<SourceView, RuntimeHostError>(
            source_error("catalog_migration_source_conflict"),
        )),
{
}

/// Activation, rollback and failure are told apart by their events: only a
/// rollback may lower the version, only an activation may raise it, and a
/// failure changes neither.
pub proof fn law_events_move_the_generation(
    source: SourceView,
    shelf: CatalogShelf,
    event: CatalogEvent,
)
    requires
        source.current is Some,
    ensures
        source.with_event(shelf, event) matches Ok(after) ==> after.current is Some && (
        match event.payload {
            CatalogEventPayload::Activated { .. } => (after.current->0).1 > (source.current->0).1
                && (after.current->0).0 == (source.current->0).0,
            CatalogEventPayload::RolledBack { .. } => (after.current->0).1 < (source.current->0).1
                && (after.current->0).0 == (source.current->0).0,
            _ => after.current == source.current,
        }),
{
}

/// A ledger that is read in two stretches gives the source that it gives when
/// it is read in one.
pub proof fn law_stretches_of_events_add_up(
    source: SourceView,
    shelf: CatalogShelf,
    first: Seq<CatalogEvent>,
    rest: Seq<CatalogEvent>,
)
    ensures
        source.with_events(shelf, first + rest) == (match source.with_events(shelf, first) {
            Err(error) => Err(error),
            Ok(middle) => middle.with_events(shelf, rest),
        }),
    decreases rest.len(),
{
    if rest.len() == 0 {
        assert(first + rest =~= first);
    } else {
        law_stretches_of_events_add_up(source, shelf, first, rest.drop_last());
        assert((first + rest).drop_last() =~= first + rest.drop_last());
        assert((first + rest).last() == rest.last());
    }
}

/// The source that a ledger gives is a stored generation with the identity of
/// the last change that succeeded.
pub proof fn law_projected_source_is_the_active_generation(
    shelf: CatalogShelf,
    events: Seq<CatalogEvent>,
)
    ensures
        projected_source(shelf, events) matches Ok(Some(loaded)) ==> (SourceView::empty().with_events(
            shelf,
            events,
        ) matches Ok(source) && source.current matches Some((id, version, hash))
            && loaded.generation.catalog_id@ == id && loaded.generation.catalog_version == version
            && shelf.loaded@.contains_key(hash) && shelf.loaded@[hash] == loaded),
        projected_source(shelf, events) matches Ok(None) ==> (SourceView::empty().with_events(
            shelf,
            events,
        ) matches Ok(source) && source.current is None),
        projected_source(shelf, Seq::empty()) == Ok::<Option<LoadedCatalog>, RuntimeHostError>(None),
{
}

} // verus!
