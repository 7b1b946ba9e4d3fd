//! The runtime's own facts: which records the store takes, how it is rebuilt
//! from the ledger, and what a takeover drops.
//!
//! In what order a change is appended to the ledger and enters the store is
//! the matter of `fact_write`, and of `fact_recovery` when the runtime starts.

use vstd::prelude::*;
use vstd::string::StringExecFns;
use vstd::utf8::is_ascii_chars_encode_utf8;

use crate::error::{
    fatal_error, plain_error, request_error, DetailedError, DetailedErrorView, RuntimeErrorCode,
    RuntimeHostError, RuntimeHostResult,
};
use crate::ids::InstanceId;
use crate::ordered_map::{
    entries_map, entry_ids, ids_increase, lemma_entry, lemma_keys_are_domain, OrderedKey, OrderedMap,
};
use crate::text::{
    append_decimal, decimal, has_prefix, lemma_text_order, lemma_utf8_concat, same_text,
    sorts_before, starts_with, text_less, utf8,
};

verus! {

/// The longest key, in bytes, that a runtime fact may have.
pub const MAX_RUNTIME_FACT_KEY_BYTES: usize = 128;

#[derive(Debug, Clone)]
pub enum FactValue {
    Integer(i64),
    Boolean(bool),
    Text(String),
}

/// The value of a fact value.
pub enum FactValueView {
    Integer(i64),
    Boolean(bool),
    Text(Seq<char>),
}

impl View for FactValue {
    type V = FactValueView;

    open spec fn view(&self) -> FactValueView {
        match *self {
            FactValue::Integer(value) => FactValueView::Integer(value),
            FactValue::Boolean(value) => FactValueView::Boolean(value),
            FactValue::Text(value) => FactValueView::Text(value@),
        }
    }
}

impl FactValue {
    pub fn same(&self, other: &Self) -> (same: bool)
        ensures
            same == (self@ == other@),
    {
        match (self, other) {
            (FactValue::Integer(left), FactValue::Integer(right)) => *left == *right,
            (FactValue::Boolean(left), FactValue::Boolean(right)) => *left == *right,
            (FactValue::Text(left), FactValue::Text(right)) => same_text(
                left.as_str(),
                right.as_str(),
            ),
            _ => false,
        }
    }

    fn copy(&self) -> (value: Self)
        ensures
            value == *self,
    {
        match self {
            FactValue::Integer(value) => FactValue::Integer(*value),
            FactValue::Boolean(value) => FactValue::Boolean(*value),
            FactValue::Text(value) => FactValue::Text(value.clone()),
        }
    }
}

/// What a fact is about.
#[derive(Debug, Clone, Copy, PartialEq, Eq, Structural)]
pub enum RuntimeFactScope {
    Runtime,
    Instance { instance_id: InstanceId },
}

/// The module that observed a fact.
#[derive(Debug, Clone, Copy, PartialEq, Eq, Structural)]
pub enum OriginModule {
    Runtime,
    DeviceProxy,
    Capture,
    Policy,
}

#[derive(Debug, Clone)]
pub struct RuntimeFactRecord {
    pub scope: RuntimeFactScope,
    pub key: String,
    pub value: FactValue,
    pub observed_at_unix_ms: u64,
    pub source: OriginModule,
    pub ttl_ms: Option<u64>,
}

/// The value of a fact record.
pub struct RuntimeFactRecordView {
    pub scope: RuntimeFactScope,
    pub key: Seq<char>,
    pub value: FactValueView,
    pub observed_at_unix_ms: u64,
    pub source: OriginModule,
    pub ttl_ms: Option<u64>,
}

impl View for RuntimeFactRecord {
    type V = RuntimeFactRecordView;

    open spec fn view(&self) -> RuntimeFactRecordView {
        RuntimeFactRecordView {
            scope: self.scope,
            key: self.key@,
            value: self.value@,
            observed_at_unix_ms: self.observed_at_unix_ms,
            source: self.source,
            ttl_ms: self.ttl_ms,
        }
    }
}

pub open spec fn record_views(records: Seq<RuntimeFactRecord>) -> Seq<RuntimeFactRecordView> {
    records.map_values(|record: RuntimeFactRecord| record@)
}

impl RuntimeFactRecord {
    /// What the record is filed under.
    pub open spec fn id(&self) -> FactId {
        (self.scope, self.key@)
    }

    pub fn same(&self, other: &Self) -> (same: bool)
        ensures
            same == (self@ == other@),
    {
        let lifetimes = match (self.ttl_ms, other.ttl_ms) {
            (None, None) => true,
            (Some(left), Some(right)) => left == right,
            _ => false,
        };
        self.scope == other.scope && same_text(self.key.as_str(), other.key.as_str())
            && self.value.same(&other.value) && self.observed_at_unix_ms
            == other.observed_at_unix_ms && self.source == other.source && lifetimes
    }

    fn copy(&self) -> (record: Self)
        ensures
            record == *self,
    {
        RuntimeFactRecord {
            scope: self.scope,
            key: self.key.clone(),
            value: self.value.copy(),
            observed_at_unix_ms: self.observed_at_unix_ms,
            source: self.source,
            ttl_ms: self.ttl_ms,
        }
    }

    fn fact_key(&self) -> (key: FactKey)
        ensures
            key.id() == self.id(),
    {
        FactKey { scope: self.scope, key: self.key.clone() }
    }
}

/// A scope and a key.
pub type FactId = (RuntimeFactScope, Seq<char>);

/// The facts a store holds.
pub type Facts = Map<FactId, RuntimeFactRecord>;

#[derive(Debug, Clone)]
pub struct FactKey {
    pub scope: RuntimeFactScope,
    pub key: String,
}

/// The runtime's scope first, then the instances by their identifier.
pub open spec fn scope_less(left: RuntimeFactScope, right: RuntimeFactScope) -> bool {
    match (left, right) {
        (RuntimeFactScope::Runtime, RuntimeFactScope::Instance { .. }) => true,
        (
            RuntimeFactScope::Instance { instance_id },
            RuntimeFactScope::Instance { instance_id: other },
        ) => instance_id < other,
        _ => false,
    }
}

impl OrderedKey for FactKey {
    type Id = FactId;

    open spec fn id(&self) -> FactId {
        (self.scope, self.key@)
    }

    open spec fn less(left: FactId, right: FactId) -> bool {
        scope_less(left.0, right.0) || (left.0 == right.0 && text_less(left.1, right.1))
    }

    proof fn lemma_order(a: FactId, b: FactId, c: FactId) {
        lemma_text_order(a.1, b.1, c.1);
    }

    fn before(&self, other: &Self) -> (before: bool) {
        match (self.scope, other.scope) {
            (RuntimeFactScope::Runtime, RuntimeFactScope::Instance { .. }) => {
                return true;
            },
            (
                RuntimeFactScope::Instance { instance_id },
                RuntimeFactScope::Instance { instance_id: right },
            ) => {
                if instance_id < right {
                    return true;
                }
            },
            _ => {},
        }
        self.scope == other.scope && sorts_before(self.key.as_str(), other.key.as_str())
    }
}

#[derive(Debug, Clone, Copy, PartialEq, Eq, Structural)]
pub enum RuntimeFactChange {
    Inserted,
    Replaced,
    Unchanged,
}

/// Why the store refuses a change.
#[derive(Debug, Clone, Copy)]
pub enum RuntimeFactError {
    Invalid { code: &'static str },
    Stale { existing_observed_at_unix_ms: u64 },
    CapacityExceeded { limit: usize },
    Missing,
}

/// The answer of the record's own validation: `Ok`, or the code of the rule
/// it breaks.
pub type FactValidity = Result<(), &'static str>;

/// What the store does with a record.
pub open spec fn fact_admission(
    facts: Facts,
    capacity: usize,
    record: RuntimeFactRecord,
    validity: FactValidity,
) -> Result<RuntimeFactChange, RuntimeFactError> {
    match validity {
        Err(code) => Err(RuntimeFactError::Invalid { code }),
        Ok(_) => if facts.contains_key(record.id()) {
            let existing = facts[record.id()];
            if existing@ == record@ {
                Ok(RuntimeFactChange::Unchanged)
            } else if existing.observed_at_unix_ms >= record.observed_at_unix_ms {
                Err(
                    RuntimeFactError::Stale {
                        existing_observed_at_unix_ms: existing.observed_at_unix_ms,
                    },
                )
            } else {
                Ok(RuntimeFactChange::Replaced)
            }
        } else if facts.len() >= capacity {
            Err(RuntimeFactError::CapacityExceeded { limit: capacity })
        } else {
            Ok(RuntimeFactChange::Inserted)
        },
    }
}

#[derive(Debug, Clone, Copy, PartialEq, Eq, Structural)]
pub enum RuntimeFactInvalidationReason {
    DeviceClosed,
    RuntimeTakeover,
}

#[derive(Debug, Clone)]
pub struct RuntimeFactInvalidation {
    pub scope: RuntimeFactScope,
    pub key: String,
    pub reason: RuntimeFactInvalidationReason,
    pub at_unix_ms: u64,
}

/// All facts at a position of the ledger.
#[derive(Debug)]
pub struct RuntimeFactSnapshot {
    pub ledger_position: u64,
    pub taken_at_unix_ms: u64,
    pub records: Vec<RuntimeFactRecord>,
}

/// The facts in memory, at most `capacity` of them.
#[derive(Debug)]
pub struct RuntimeFactStore {
    pub capacity: usize,
    pub records: OrderedMap<FactKey, RuntimeFactRecord>,
}

impl View for RuntimeFactStore {
    type V = Facts;

    open spec fn view(&self) -> Facts {
        self.records@
    }
}

impl RuntimeFactStore {
    /// Each record is filed under its own scope and key.
    pub open spec fn wf(&self) -> bool {
        &&& self.records.wf()
        &&& forall|id: FactId| #[trigger] self@.contains_key(id) ==> self@[id].id() == id
    }

    pub fn new(capacity: usize) -> (store: Self)
        ensures
            store.wf(),
            store.capacity == capacity,
            store@ == Facts::empty(),
    {
        RuntimeFactStore { capacity, records: OrderedMap::new() }
    }

    pub fn get(&self, scope: RuntimeFactScope, key: &str) -> (found: Option<&RuntimeFactRecord>)
        requires
            self.wf(),
        ensures
            match found {
                Some(record) => self@.contains_key((scope, key@)) && *record == self@[(
                    scope,
                    key@,
                )],
                None => !self@.contains_key((scope, key@)),
            },
    {
        let wanted = FactKey { scope, key: String::from_str(key) };
        self.records.get(&wanted)
    }

    pub(crate) fn judge(&self, record: &RuntimeFactRecord, validity: FactValidity) -> (result: Result<
        RuntimeFactChange,
        RuntimeFactError,
    >)
        requires
            self.wf(),
        ensures
            result == fact_admission(self@, self.capacity, *record, validity),
    {
        if let Err(code) = validity {
            return Err(RuntimeFactError::Invalid { code });
        }
        match self.get(record.scope, record.key.as_str()) {
            Some(existing) => {
                if existing.same(record) {
                    Ok(RuntimeFactChange::Unchanged)
                } else if existing.observed_at_unix_ms >= record.observed_at_unix_ms {
                    Err(
                        RuntimeFactError::Stale {
                            existing_observed_at_unix_ms: existing.observed_at_unix_ms,
                        },
                    )
                } else {
                    Ok(RuntimeFactChange::Replaced)
                }
            },
            None => {
                proof {
                    lemma_keys_are_domain(self.records);
                }
                if self.records.len() >= self.capacity {
                    Err(RuntimeFactError::CapacityExceeded { limit: self.capacity })
                } else {
                    Ok(RuntimeFactChange::Inserted)
                }
            },
        }
    }

    /// Takes a record, or refuses it and stays as it is.
    pub fn record(&mut self, record: RuntimeFactRecord, validity: FactValidity) -> (result: Result<
        RuntimeFactChange,
        RuntimeFactError,
    >)
        requires
            old(self).wf(),
        ensures
            final(self).wf(),
            final(self).capacity == old(self).capacity,
            result == fact_admission(old(self)@, old(self).capacity, record, validity),
            final(self)@ == match result {
                Ok(RuntimeFactChange::Inserted) => old(self)@.insert(record.id(), record),
                Ok(RuntimeFactChange::Replaced) => old(self)@.insert(record.id(), record),
                _ => old(self)@,
            },
    {
        let change = self.judge(&record, validity)?;
        if change != RuntimeFactChange::Unchanged {
            let key = record.fact_key();
            self.records.insert(key, record);
        }
        Ok(change)
    }

    /// Drops a record.
    pub fn invalidate(&mut self, scope: RuntimeFactScope, key: &str) -> (result: Result<
        (),
        RuntimeFactError,
    >)
        requires
            old(self).wf(),
        ensures
            final(self).wf(),
            final(self).capacity == old(self).capacity,
            old(self)@.contains_key((scope, key@)) ==> result is Ok && final(self)@ == old(
                self,
            )@.remove((scope, key@)),
            !old(self)@.contains_key((scope, key@)) ==> result == Err::<(), _>(
                RuntimeFactError::Missing,
            ) && final(self)@ == old(self)@,
    {
        let wanted = FactKey { scope, key: String::from_str(key) };
        let ghost before = self@;
        let removed = self.records.remove(&wanted);
        assert forall|id: FactId| #[trigger] self@.contains_key(id) implies self@[id].id()
            == id by {
            assert(before.contains_key(id));
        }
        match removed {
            Some(_) => Ok(()),
            None => Err(RuntimeFactError::Missing),
        }
    }

    /// Seals the facts at a position of the ledger.
    pub fn seal(&self, ledger_position: u64, taken_at_unix_ms: u64) -> (snapshot:
        RuntimeFactSnapshot)
        requires
            self.wf(),
        ensures
            snapshot.ledger_position == ledger_position,
            snapshot.taken_at_unix_ms == taken_at_unix_ms,
            snapshot_facts(snapshot.records@) == self@,
    {
        RuntimeFactSnapshot { ledger_position, taken_at_unix_ms, records: self.snapshot() }
    }

    /// All records, in the order of the store.
    pub fn snapshot(&self) -> (records: Vec<RuntimeFactRecord>)
        requires
            self.wf(),
        ensures
            snapshot_facts(records@) == self@,
    {
        let mut records: Vec<RuntimeFactRecord> = Vec::new();
        let mut index: usize = 0;
        let ghost entries = self.records.entries@;
        assert(entries_map(entries.take(0)) =~= Facts::empty());
        while index < self.records.entries.len()
            invariant
                self.wf(),
                entries == self.records.entries@,
                index <= entries.len(),
                records@.len() == index,
                snapshot_facts(records@) == entries_map(entries.take(index as int)),
            decreases self.records.entries.len() - index,
        {
            let copy = self.records.entries[index].1.copy();
            let ghost before = records@;
            records.push(copy);
            proof {
                assert(records@.drop_last() =~= before);
                lemma_entry(entries, index as int);
                assert(self@.contains_key(entries[index as int].0.id()));
                assert(entries[index as int].1.id() == entries[index as int].0.id());
                lemma_entries_map_grows(entries, index as int);
            }
            index += 1;
        }
        assert(entries.take(entries.len() as int) =~= entries);
        records
    }
}

proof fn lemma_entries_map_grows(entries: Seq<(FactKey, RuntimeFactRecord)>, index: int)
    requires
        crate::ordered_map::ids_increase::<FactKey>(entry_ids(entries)),
        0 <= index < entries.len(),
    ensures
        entries_map(entries.take(index + 1)) == entries_map(entries.take(index)).insert(
            entries[index].0.id(),
            entries[index].1,
        ),
{
    let longer = entries.take(index + 1);
    let shorter = entries.take(index);
    let ids = entry_ids(longer);
    let short_ids = entry_ids(shorter);
    let id = entries[index].0.id();
    assert forall|i: int, j: int| 0 <= i < j < ids.len() implies FactKey::less(
        #[trigger] ids[i],
        #[trigger] ids[j],
    ) by {
        assert(ids[i] == entry_ids(entries)[i] && ids[j] == entry_ids(entries)[j]);
    }
    assert forall|i: int, j: int| 0 <= i < j < short_ids.len() implies FactKey::less(
        #[trigger] short_ids[i],
        #[trigger] short_ids[j],
    ) by {
        assert(short_ids[i] == ids[i] && short_ids[j] == ids[j]);
    }
    let left = entries_map(longer);
    let right = entries_map(shorter).insert(id, entries[index].1);
    assert forall|other: FactId| #[trigger] left.contains_key(other) == right.contains_key(
        other,
    ) by {
        if ids.contains(other) {
            let i = ids.index_of(other);
            if i < index {
                assert(short_ids[i] == other);
            }
        }
        if short_ids.contains(other) {
            let i = short_ids.index_of(other);
            assert(ids[i] == other);
        }
        assert(ids[index] == id);
    }
    assert forall|other: FactId| left.contains_key(other) implies #[trigger] left[other]
        == right[other] by {
        let i = ids.index_of(other);
        assert(ids[i] == other);
        lemma_entry(longer, i);
        if i < index {
            lemma_entry(shorter, i);
            assert(shorter[i] == longer[i]);
            FactKey::lemma_order(id, id, id);
            assert(FactKey::less(ids[i], ids[index]));
        }
    }
    assert(left =~= right);
}

/// The facts that a list of records holds, the last of two with one id.
pub open spec fn snapshot_facts(records: Seq<RuntimeFactRecord>) -> Facts
    decreases records.len(),
{
    if records.len() == 0 {
        Facts::empty()
    } else {
        snapshot_facts(records.drop_last()).insert(records.last().id(), records.last())
    }
}

/// The stable code of a refusal.
pub open spec fn fact_error_code(error: RuntimeFactError) -> &'static str {
    match error {
        RuntimeFactError::Invalid { code } => code,
        RuntimeFactError::Stale { .. } => "runtime_fact_stale",
        RuntimeFactError::CapacityExceeded { .. } => "runtime_fact_capacity_exceeded",
        RuntimeFactError::Missing => "runtime_fact_missing",
    }
}

pub fn runtime_fact_code(error: &RuntimeFactError) -> (code: &'static str)
    ensures
        code == fact_error_code(*error),
{
    match error {
        RuntimeFactError::Invalid { code } => code,
        RuntimeFactError::Stale { .. } => "runtime_fact_stale",
        RuntimeFactError::CapacityExceeded { .. } => "runtime_fact_capacity_exceeded",
        RuntimeFactError::Missing => "runtime_fact_missing",
    }
}

/// The refusal of a change before anything was appended.
pub open spec fn fact_rejection(error: RuntimeFactError, operation: &'static str) -> RuntimeHostError {
    request_error(fact_error_code(error), operation, RuntimeErrorCode::InvalidRequest)
}

pub(crate) fn runtime_fact_rejection(error: &RuntimeFactError, operation: &'static str) -> (result:
    RuntimeHostError)
    ensures
        result == fact_rejection(*error, operation),
{
    RuntimeHostError::request(
        runtime_fact_code(error),
        operation,
        RuntimeErrorCode::InvalidRequest,
    )
}

/// Applies the store's rules to a record without changing the store: `Some`
/// when the store already holds the very record and nothing has to be
/// appended, `None` when the record is to be appended and taken.
pub fn precheck_runtime_fact(
    store: &RuntimeFactStore,
    record: &RuntimeFactRecord,
    validity: FactValidity,
) -> (result: RuntimeHostResult<Option<RuntimeFactChange>>)
    requires
        store.wf(),
    ensures
        match fact_admission(store@, store.capacity, *record, validity) {
            Err(error) => result == Err::<Option<RuntimeFactChange>, _>(
                fact_rejection(error, "record_runtime_fact"),
            ),
            Ok(RuntimeFactChange::Unchanged) => result == Ok::<_, RuntimeHostError>(
                Some(RuntimeFactChange::Unchanged),
            ),
            Ok(_) => result == Ok::<_, RuntimeHostError>(None::<RuntimeFactChange>),
        },
{
    match store.judge(record, validity) {
        Err(error) => Err(runtime_fact_rejection(&error, "record_runtime_fact")),
        Ok(RuntimeFactChange::Unchanged) => Ok(Some(RuntimeFactChange::Unchanged)),
        Ok(_) => Ok(None),
    }
}

/// A fact of an instance needs a registered instance.
pub fn check_fact_scope(scope: RuntimeFactScope, registered: &Vec<InstanceId>) -> (result:
    RuntimeHostResult<()>)
    ensures
        match scope {
            RuntimeFactScope::Runtime => result is Ok,
            RuntimeFactScope::Instance { instance_id } => if registered@.contains(instance_id) {
                result is Ok
            } else {
                result == Err::<(), _>(
                    request_error(
                        "runtime_fact_instance_unknown",
                        "bind_runtime_fact_scope",
                        RuntimeErrorCode::InstanceUnknown,
                    ),
                )
            },
        },
{
    match scope {
        RuntimeFactScope::Runtime => Ok(()),
        RuntimeFactScope::Instance { instance_id } => {
            let mut index: usize = 0;
            while index < registered.len()
                invariant
                    index <= registered.len(),
                    scope == (RuntimeFactScope::Instance { instance_id }),
                    forall|i: int| 0 <= i < index ==> registered@[i] != instance_id,
                decreases registered.len() - index,
            {
                if registered[index] == instance_id {
                    assert(registered@[index as int] == instance_id);
                    return Ok(());
                }
                index += 1;
            }
            Err(
                RuntimeHostError::request(
                    "runtime_fact_instance_unknown",
                    "bind_runtime_fact_scope",
                    RuntimeErrorCode::InstanceUnknown,
                ),
            )
        },
    }
}

/// A runtime fact event of the ledger.
#[derive(Debug, Clone)]
pub enum FactEventPayload {
    Snapshot { records: Vec<RuntimeFactRecord> },
    Recorded { record: RuntimeFactRecord },
    Invalidated { scope: RuntimeFactScope, key: String },
    /// Anything else that was appended for the fact store.
    Other,
}

#[derive(Debug)]
pub struct FactEvent {
    pub sequence: u64,
    pub payload: FactEventPayload,
    /// The answer of the payload's own validation.
    pub validity: FactValidity,
}

/// The facts after one appended event, or why it cannot be replayed.
pub open spec fn replay_step(facts: Facts, capacity: usize, event: FactEvent) -> Result<
    Facts,
    ReplayCause,
> {
    match event.payload {
        FactEventPayload::Recorded { record } => match fact_admission(
            facts,
            capacity,
            record,
            event.validity,
        ) {
            Err(refusal) => Err(ReplayCause::Refused(refusal)),
            Ok(RuntimeFactChange::Unchanged) => Ok(facts),
            Ok(_) => Ok(facts.insert(record.id(), record)),
        },
        FactEventPayload::Invalidated { scope, key } => if facts.contains_key((scope, key@)) {
            Ok(facts.remove((scope, key@)))
        } else {
            Err(ReplayCause::Refused(RuntimeFactError::Missing))
        },
        _ => Err(ReplayCause::UnexpectedEvent),
    }
}

/// The facts after some appended events, or the first that cannot be replayed.
pub open spec fn replayed(facts: Facts, capacity: usize, events: Seq<FactEvent>) -> Result<
    Facts,
    ReplayFailure,
>
    decreases events.len(),
{
    if events.len() == 0 {
        Ok(facts)
    } else {
        match replayed(facts, capacity, events.drop_last()) {
            Ok(before) => match replay_step(before, capacity, events.last()) {
                Ok(after) => Ok(after),
                Err(cause) => Err(replay_failure(events.last().sequence, cause)),
            },
            Err(failure) => Err(failure),
        }
    }
}

/// Why an event of the ledger cannot be replayed.
#[derive(Debug, Clone, Copy)]
pub enum ReplayCause {
    /// The newest snapshot event holds no snapshot.
    NoSnapshot,
    /// No sequence follows that of the snapshot.
    SequenceOverflow,
    /// The event is none of the facts'.
    UnexpectedEvent,
    /// The store refuses it.
    Refused(RuntimeFactError),
}

/// The ledger holds an event that the store refuses to replay.
#[derive(Debug, Clone, Copy)]
pub struct ReplayFailure {
    pub error: RuntimeHostError,
    pub sequence: u64,
    pub cause: ReplayCause,
}

pub open spec fn replay_failure(sequence: u64, cause: ReplayCause) -> ReplayFailure {
    ReplayFailure {
        error: fatal_error(
            "runtime_fact_replay_failed",
            "recover_runtime_facts",
            RuntimeErrorCode::RuntimeFatal,
        ),
        sequence,
        cause,
    }
}

fn runtime_fact_replay_failed(sequence: u64, cause: ReplayCause) -> (failure: ReplayFailure)
    ensures
        failure == replay_failure(sequence, cause),
{
    ReplayFailure {
        error: RuntimeHostError::fatal(
            "runtime_fact_replay_failed",
            "recover_runtime_facts",
            RuntimeErrorCode::RuntimeFatal,
        ),
        sequence,
        cause,
    }
}

/// The detail of a failed replay. `refusal` is the store's refusal in words.
pub open spec fn replay_detail(failure: ReplayFailure, refusal: Seq<char>) -> Seq<char> {
    "sequence "@ + decimal(failure.sequence as nat) + ": "@ + match failure.cause {
        ReplayCause::NoSnapshot => "payload is not runtime.fact_snapshot"@,
        ReplayCause::SequenceOverflow => "ledger sequence overflow"@,
        ReplayCause::UnexpectedEvent => "unexpected event under origin module runtime-facts"@,
        ReplayCause::Refused(_) => refusal,
    }
}

impl ReplayFailure {
    /// The error with its detail. `refusal` is the store's refusal in words.
    pub fn detailed(self, refusal: &str) -> (error: DetailedError)
        ensures
            error@ == (DetailedErrorView {
                native_detail: Some(replay_detail(self, refusal@)),
                ..plain_error(self.error)
            }),
    {
        let mut detail = String::from_str("sequence ");
        append_decimal(&mut detail, self.sequence);
        detail.append(": ");
        match self.cause {
            ReplayCause::NoSnapshot => detail.append("payload is not runtime.fact_snapshot"),
            ReplayCause::SequenceOverflow => detail.append("ledger sequence overflow"),
            ReplayCause::UnexpectedEvent => detail.append(
                "unexpected event under origin module runtime-facts",
            ),
            ReplayCause::Refused(_) => detail.append(refusal),
        }
        DetailedError::plain(self.error).with_native_detail(detail)
    }
}

/// Where a replay starts: the facts, and the sequence of the first event to
/// apply to them.
pub open spec fn replay_origin(snapshots: Seq<FactEvent>) -> Result<(Facts, u64), ReplayFailure> {
    if snapshots.len() == 0 {
        Ok((Facts::empty(), 1u64))
    } else {
        let latest = snapshots.last();
        match (latest.payload, latest.validity) {
            (FactEventPayload::Snapshot { .. }, Err(code)) => Err(
                replay_failure(
                    latest.sequence,
                    ReplayCause::Refused(RuntimeFactError::Invalid { code }),
                ),
            ),
            (FactEventPayload::Snapshot { records }, Ok(_)) => if latest.sequence < u64::MAX {
                Ok((snapshot_facts(records@), (latest.sequence + 1) as u64))
            } else {
                Err(replay_failure(latest.sequence, ReplayCause::SequenceOverflow))
            },
            _ => Err(replay_failure(latest.sequence, ReplayCause::NoSnapshot)),
        }
    }
}

/// Starts a replay from the newest snapshot, or from nothing.
pub fn begin_replay(capacity: usize, snapshots: &Vec<FactEvent>) -> (result: Result<
    (RuntimeFactStore, u64),
    ReplayFailure,
>)
    ensures
        match replay_origin(snapshots@) {
            Ok((facts, from_sequence)) => {
                &&& result matches Ok((store, from))
                &&& store.wf()
                &&& store.capacity == capacity
                &&& store@ == facts
                &&& from == from_sequence
            },
            Err(fault) => result matches Err(failure) && failure == fault,
        },
{
    let mut store = RuntimeFactStore::new(capacity);
    if snapshots.len() == 0 {
        return Ok((store, 1));
    }
    let latest = &snapshots[snapshots.len() - 1];
    match &latest.payload {
        FactEventPayload::Snapshot { records } => {
            if let Err(code) = latest.validity {
                return Err(
                    runtime_fact_replay_failed(
                        latest.sequence,
                        ReplayCause::Refused(RuntimeFactError::Invalid { code }),
                    ),
                );
            }
            if latest.sequence == u64::MAX {
                return Err(
                    runtime_fact_replay_failed(latest.sequence, ReplayCause::SequenceOverflow),
                );
            }
            let mut index: usize = 0;
            assert(records@.take(0) =~= Seq::empty());
            while index < records.len()
                invariant
                    index <= records.len(),
                    store.wf(),
                    store.capacity == capacity,
                    store@ == snapshot_facts(records@.take(index as int)),
                decreases records.len() - index,
            {
                let record = records[index].copy();
                let key = record.fact_key();
                store.records.insert(key, record);
                proof {
                    let taken = records@.take(index + 1);
                    assert(taken.drop_last() =~= records@.take(index as int));
                    assert(taken.last() == records@[index as int]);
                }
                index += 1;
            }
            assert(records@.take(records@.len() as int) =~= records@);
            Ok((store, latest.sequence + 1))
        },
        _ => Err(runtime_fact_replay_failed(latest.sequence, ReplayCause::NoSnapshot)),
    }
}

/// Applies the events appended after the snapshot, in ledger order.
pub fn replay_appended(store: &mut RuntimeFactStore, appended: &Vec<FactEvent>) -> (result: Result<
    (),
    ReplayFailure,
>)
    requires
        old(store).wf(),
    ensures
        final(store).wf(),
        final(store).capacity == old(store).capacity,
        match replayed(old(store)@, old(store).capacity, appended@) {
            Ok(facts) => result is Ok && final(store)@ == facts,
            Err(fault) => result == Err::<(), _>(fault),
        },
{
    let ghost start = store@;
    let ghost capacity = store.capacity;
    let mut index: usize = 0;
    assert(appended@.take(0) =~= Seq::empty());
    while index < appended.len()
        invariant
            index <= appended.len(),
            store.wf(),
            store.capacity == capacity,
            start == old(store)@,
            capacity == old(store).capacity,
            replayed(start, capacity, appended@.take(index as int)) == Ok::<
                Facts,
                ReplayFailure,
            >(store@),
        decreases appended.len() - index,
    {
        let event = &appended[index];
        proof {
            let taken = appended@.take(index + 1);
            assert(taken.drop_last() =~= appended@.take(index as int));
            assert(taken.last() == appended@[index as int]);
            if replayed(start, capacity, taken) is Err {
                lemma_replay_stays_refused(start, capacity, appended@, index + 1);
            }
        }
        match &event.payload {
            FactEventPayload::Recorded { record } => {
                if let Err(refusal) = store.record(record.copy(), event.validity) {
                    return Err(
                        runtime_fact_replay_failed(event.sequence, ReplayCause::Refused(refusal)),
                    );
                }
            },
            FactEventPayload::Invalidated { scope, key } => {
                if let Err(refusal) = store.invalidate(*scope, key.as_str()) {
                    return Err(
                        runtime_fact_replay_failed(event.sequence, ReplayCause::Refused(refusal)),
                    );
                }
            },
            _ => {
                return Err(
                    runtime_fact_replay_failed(event.sequence, ReplayCause::UnexpectedEvent),
                );
            },
        }
        index += 1;
    }
    assert(appended@.take(appended@.len() as int) =~= appended@);
    Ok(())
}

proof fn lemma_replay_stays_refused(
    facts: Facts,
    capacity: usize,
    events: Seq<FactEvent>,
    count: int,
)
    requires
        0 <= count <= events.len(),
        replayed(facts, capacity, events.take(count)) is Err,
    ensures
        replayed(facts, capacity, events) == replayed(facts, capacity, events.take(count)),
    decreases events.len() - count,
{
    if count == events.len() {
        assert(events.take(count) =~= events);
    } else {
        assert(events.take(count + 1).drop_last() =~= events.take(count));
        lemma_replay_stays_refused(facts, capacity, events, count + 1);
    }
}

/// Replaying two stretches of events is replaying the second on what the
/// first gave.
pub proof fn lemma_replay_append(
    facts: Facts,
    capacity: usize,
    first: Seq<FactEvent>,
    second: Seq<FactEvent>,
)
    ensures
        replayed(facts, capacity, first + second) == match replayed(facts, capacity, first) {
            Ok(middle) => replayed(middle, capacity, second),
            Err(failure) => Err(failure),
        },
    decreases second.len(),
{
    if second.len() == 0 {
        assert(first + second =~= first);
    } else {
        assert((first + second).drop_last() =~= first + second.drop_last());
        lemma_replay_append(facts, capacity, first, second.drop_last());
    }
}

/// A snapshot only shortens the replay: what it sealed, followed by the events
/// after it, gives the facts that all events give.
pub proof fn law_snapshot_shortens_replay(
    capacity: usize,
    before: Seq<FactEvent>,
    snapshot: FactEvent,
    records: Vec<RuntimeFactRecord>,
    after: Seq<FactEvent>,
)
    requires
        replayed(Facts::empty(), capacity, before) == Ok::<Facts, ReplayFailure>(
            snapshot_facts(records@),
        ),
        snapshot.payload == (FactEventPayload::Snapshot { records }),
        snapshot.validity is Ok,
        snapshot.sequence < u64::MAX,
    ensures
        replay_origin(seq![snapshot]) matches Ok((facts, from)) && replayed(
            facts,
            capacity,
            after,
        ) == replayed(Facts::empty(), capacity, before + after),
{
    lemma_replay_append(Facts::empty(), capacity, before, after);
    assert(seq![snapshot].last() == snapshot);
}

/// The facts of an instance that a new owner epoch cannot trust.
pub open spec fn takeover_target(id: FactId) -> bool {
    id.0 is Instance && (has_prefix(utf8(id.1), utf8("device."@)) || has_prefix(
        utf8(id.1),
        utf8("backend."@),
    ) || has_prefix(utf8(id.1), utf8("application."@)) || id.1 == "task.page"@)
}

fn is_takeover_target(scope: RuntimeFactScope, key: &str) -> (target: bool)
    ensures
        target == takeover_target((scope, key@)),
{
    match scope {
        RuntimeFactScope::Runtime => false,
        RuntimeFactScope::Instance { .. } => starts_with(key, "device.") || starts_with(
            key,
            "backend.",
        ) || starts_with(key, "application.") || same_text(key, "task.page"),
    }
}

/// What some invalidations are about.
pub open spec fn invalidated_ids(invalidations: Seq<RuntimeFactInvalidation>) -> Seq<FactId> {
    invalidations.map_values(
        |invalidation: RuntimeFactInvalidation| (invalidation.scope, invalidation.key@),
    )
}

/// The facts that a new owner epoch cannot trust, each once, instances by
/// identifier and keys in order.
pub open spec fn lists_targets(ids: Seq<FactId>, facts: Facts) -> bool {
    &&& ids_increase::<FactKey>(ids)
    &&& forall|id: FactId| #[trigger]
        ids.contains(id) <==> facts.contains_key(id) && takeover_target(id)
}

/// Lists what to append for every fact that a new owner epoch cannot trust.
pub fn takeover_invalidations(store: &RuntimeFactStore, at_unix_ms: u64) -> (invalidations: Vec<
    RuntimeFactInvalidation,
>)
    requires
        store.wf(),
    ensures
        lists_targets(invalidated_ids(invalidations@), store@),
        forall|i: int|
            0 <= i < invalidations@.len() ==> (#[trigger] invalidations@[i]).reason
                == RuntimeFactInvalidationReason::RuntimeTakeover && invalidations@[i].at_unix_ms
                == at_unix_ms,
{
    let mut invalidations: Vec<RuntimeFactInvalidation> = Vec::new();
    let ghost keys = store.records.keys();
    let mut visited: usize = 0;
    while visited < store.records.len()
        invariant
            store.wf(),
            keys == store.records.keys(),
            visited <= keys.len(),
            ids_increase::<FactKey>(invalidated_ids(invalidations@)),
            forall|i: int|
                0 <= i < invalidations@.len() ==> takeover_target(
                    #[trigger] invalidated_ids(invalidations@)[i],
                ) && keys.take(visited as int).contains(invalidated_ids(invalidations@)[i]),
            forall|k: int|
                0 <= k < visited && takeover_target(#[trigger] keys[k]) ==> invalidated_ids(
                    invalidations@,
                ).contains(keys[k]),
            forall|i: int|
                0 <= i < invalidations@.len() ==> (#[trigger] invalidations@[i]).reason
                    == RuntimeFactInvalidationReason::RuntimeTakeover
                    && invalidations@[i].at_unix_ms == at_unix_ms,
        decreases keys.len() - visited,
    {
        let entry = &store.records.entries[visited];
        let ghost before = invalidated_ids(invalidations@);
        let ghost id = keys[visited as int];
        assert(entry.0.id() == id);
        if is_takeover_target(entry.0.scope, entry.0.key.as_str()) {
            invalidations.push(
                RuntimeFactInvalidation {
                    scope: entry.0.scope,
                    key: entry.0.key.clone(),
                    reason: RuntimeFactInvalidationReason::RuntimeTakeover,
                    at_unix_ms,
                },
            );
            assert(invalidated_ids(invalidations@) =~= before.push(id));
        }
        proof {
            let after = invalidated_ids(invalidations@);
            let seen = keys.take(visited as int);
            let next = keys.take(visited + 1);
            assert forall|i: int| 0 <= i < before.len() implies FactKey::less(
                #[trigger] before[i],
                id,
            ) by {
                let k = seen.index_of(before[i]);
                assert(keys[k] == before[i]);
                assert(FactKey::less(keys[k], keys[visited as int]));
            }
            assert forall|i: int| 0 <= i < after.len() implies next.contains(#[trigger] after[i]) by {
                if i < before.len() {
                    let k = seen.index_of(before[i]);
                    assert(next[k] == before[i]);
                } else {
                    assert(next[visited as int] == id);
                }
            }
            assert forall|k: int| 0 <= k < visited + 1 && takeover_target(
                #[trigger] keys[k],
            ) implies after.contains(keys[k]) by {
                if k < visited {
                    let i = before.index_of(keys[k]);
                    assert(after[i] == keys[k]);
                } else {
                    assert(after[before.len() as int] == id);
                }
            }
        }
        visited += 1;
    }
    proof {
        let ids = invalidated_ids(invalidations@);
        assert(keys.take(visited as int) =~= keys);
        assert forall|id: FactId| #[trigger] ids.contains(id) <==> store@.contains_key(id)
            && takeover_target(id) by {
            if ids.contains(id) {
                let i = ids.index_of(id);
                assert(ids[i] == id);
            }
            if store@.contains_key(id) && takeover_target(id) {
                let k = keys.index_of(id);
                assert(keys[k] == id);
            }
        }
    }
    invalidations
}

/// A fact of this instance that a new owner epoch cannot trust.
pub open spec fn untrusted_of(id: FactId, instance_id: InstanceId) -> bool {
    takeover_target(id) && id.0 == (RuntimeFactScope::Instance { instance_id })
}

/// The facts without those of an instance that cannot be trusted.
pub open spec fn without_untrusted(facts: Facts, instance_id: InstanceId) -> Facts {
    facts.remove_keys(Set::new(|id: FactId| untrusted_of(id, instance_id)))
}

/// Drops the facts of an instance that a new owner epoch cannot trust.
pub fn drop_untrusted(store: &mut RuntimeFactStore, instance_id: InstanceId)
    requires
        old(store).wf(),
    ensures
        final(store).wf(),
        final(store).capacity == old(store).capacity,
        final(store)@ == without_untrusted(old(store)@, instance_id),
{
    let ghost facts = store@;
    let mut position: usize = 0;
    while position < store.records.len()
        invariant
            store.wf(),
            store.capacity == old(store).capacity,
            facts == old(store)@,
            position <= store.records.entries@.len(),
            forall|id: FactId| #[trigger]
                store@.contains_key(id) ==> facts.contains_key(id) && store@[id] == facts[id],
            forall|id: FactId| #[trigger]
                facts.contains_key(id) && !untrusted_of(id, instance_id) ==> store@.contains_key(
                    id,
                ),
            forall|i: int|
                0 <= i < position ==> !untrusted_of(#[trigger] store.records.keys()[i], instance_id),
        decreases store.records.entries@.len() - position,
    {
        let ghost keys = store.records.keys();
        let entry = &store.records.entries[position];
        assert(entry.0.id() == keys[position as int]);
        let scope = RuntimeFactScope::Instance { instance_id };
        if entry.0.scope == scope && is_takeover_target(scope, entry.0.key.as_str()) {
            let ghost before = store@;
            let _ = store.records.remove_at(position);
            proof {
                assert(store@ == before.remove(keys[position as int]));
                assert forall|id: FactId| #[trigger] store@.contains_key(id) implies
                    before.contains_key(id) && store@[id] == before[id] by {}
                assert forall|i: int| 0 <= i < position implies !untrusted_of(
                    #[trigger] store.records.keys()[i],
                    instance_id,
                ) by {
                    assert(store.records.keys()[i] == keys[i]);
                }
            }
        } else {
            position += 1;
        }
    }
    proof {
        assert forall|id: FactId| #[trigger] store@.contains_key(id) implies !untrusted_of(
            id,
            instance_id,
        ) by {
            let keys = store.records.keys();
            let i = keys.index_of(id);
            assert(keys[i] == id);
        }
        assert(store@ =~= without_untrusted(facts, instance_id));
    }
}

/// A valid record is taken exactly where it is newer than what is held of it,
/// is the very record that is held, or is new and there is room. A record that
/// is not newer never takes the place of another.
pub proof fn law_newer_record_is_taken(
    facts: Facts,
    capacity: usize,
    record: RuntimeFactRecord,
    code: &'static str,
)
    ensures
        ({
            let id = (record.scope, record.key@);
            let known = facts.contains_key(id);
            let result = fact_admission(facts, capacity, record, Ok(()));
            &&& result == Ok::<_, RuntimeFactError>(RuntimeFactChange::Inserted) <==> !known
                && facts.len() < capacity
            &&& result == Ok::<_, RuntimeFactError>(RuntimeFactChange::Unchanged) <==> known
                && facts[id]@ == record@
            &&& result == Ok::<_, RuntimeFactError>(RuntimeFactChange::Replaced) <==> known
                && record.observed_at_unix_ms > facts[id].observed_at_unix_ms
            &&& known && facts[id]@ != record@ && record.observed_at_unix_ms
                <= facts[id].observed_at_unix_ms ==> result == Err::<RuntimeFactChange, _>(
                RuntimeFactError::Stale {
                    existing_observed_at_unix_ms: facts[id].observed_at_unix_ms,
                },
            )
            &&& !known && facts.len() >= capacity ==> result == Err::<RuntimeFactChange, _>(
                RuntimeFactError::CapacityExceeded { limit: capacity },
            )
            &&& fact_admission(facts, capacity, record, Err(code)) == Err::<RuntimeFactChange, _>(
                RuntimeFactError::Invalid { code },
            )
        }),
{
}

/// Replaying a recorded fact leaves it held under its own scope and key,
/// replaying its invalidation leaves it gone, and neither touches another.
pub proof fn law_replay_touches_one_fact(
    facts: Facts,
    capacity: usize,
    event: FactEvent,
    other: FactId,
)
    requires
        replay_step(facts, capacity, event) is Ok,
    ensures
        ({
            let after = replay_step(facts, capacity, event)->Ok_0;
            match event.payload {
                FactEventPayload::Recorded { record } => {
                    &&& after.contains_key((record.scope, record.key@))
                    &&& after[(record.scope, record.key@)]@ == record@
                    &&& other != (record.scope, record.key@) ==> after.contains_key(other)
                        == facts.contains_key(other) && after[other] == facts[other]
                },
                FactEventPayload::Invalidated { scope, key } => {
                    &&& facts.contains_key((scope, key@))
                    &&& !after.contains_key((scope, key@))
                    &&& other != (scope, key@) ==> after.contains_key(other) == facts.contains_key(
                        other,
                    ) && after[other] == facts[other]
                },
                _ => false,
            }
        }),
{
}

/// What a snapshot holds under a scope and a key is the last of its records
/// with them.
pub proof fn law_snapshot_holds_its_records(records: Seq<RuntimeFactRecord>, index: int)
    requires
        0 <= index < records.len(),
        forall|i: int|
            index < i < records.len() ==> !((#[trigger] records[i]).scope == records[index].scope
                && records[i].key@ == records[index].key@),
    ensures
        snapshot_facts(records).contains_key((records[index].scope, records[index].key@)),
        snapshot_facts(records)[(records[index].scope, records[index].key@)] == records[index],
    decreases records.len(),
{
    if index < records.len() - 1 {
        let before = records.drop_last();
        assert(before[index] == records[index]);
        assert forall|i: int| index < i < before.len() implies !((#[trigger] before[i]).scope
            == before[index].scope && before[i].key@ == before[index].key@) by {
            assert(records[i] == before[i]);
        }
        law_snapshot_holds_its_records(before, index);
        assert(!(records[records.len() - 1].scope == records[index].scope && records[records.len()
            - 1].key@ == records[index].key@));
    }
}

/// A replay starts from the newest snapshot, right after its event, and from
/// nothing at the first event where there is none.
pub proof fn law_replay_starts_after_the_newest_snapshot(snapshots: Seq<FactEvent>)
    ensures
        snapshots.len() == 0 ==> replay_origin(snapshots) == Ok::<_, ReplayFailure>(
            (Facts::empty(), 1u64),
        ),
        snapshots.len() > 0 ==> (replay_origin(snapshots) matches Ok((facts, from)) ==> {
            &&& snapshots.last().payload matches FactEventPayload::Snapshot { records } && facts
                == snapshot_facts(records@)
            &&& snapshots.last().validity is Ok
            &&& from == snapshots.last().sequence + 1
        }),
        snapshots.len() > 0 && snapshots.last().payload is Snapshot && snapshots.last().validity
            is Ok && snapshots.last().sequence < u64::MAX ==> replay_origin(snapshots) is Ok,
{
}

/// A takeover trusts no fact of an instance about its device, its backend or
/// its application, nor its page; it trusts every fact of the runtime.
pub proof fn law_takeover_distrusts_what_it_cannot_see(
    instance_id: InstanceId,
    rest: Seq<char>,
    key: Seq<char>,
)
    ensures
        takeover_target((RuntimeFactScope::Instance { instance_id }, "device."@ + rest)),
        takeover_target((RuntimeFactScope::Instance { instance_id }, "backend."@ + rest)),
        takeover_target((RuntimeFactScope::Instance { instance_id }, "application."@ + rest)),
        takeover_target((RuntimeFactScope::Instance { instance_id }, "task.page"@)),
        !takeover_target((RuntimeFactScope::Runtime, key)),
{
    lemma_utf8_concat("device."@, rest);
    lemma_utf8_concat("backend."@, rest);
    lemma_utf8_concat("application."@, rest);
    assert((utf8("device."@) + utf8(rest)).take(utf8("device."@).len() as int) =~= utf8(
        "device."@,
    ));
    assert((utf8("backend."@) + utf8(rest)).take(utf8("backend."@).len() as int) =~= utf8(
        "backend."@,
    ));
    assert((utf8("application."@) + utf8(rest)).take(utf8("application."@).len() as int) =~= utf8(
        "application."@,
    ));
}

/// A takeover trusts every other fact of an instance: one whose key begins with
/// none of the three and is not the page.
pub proof fn law_takeover_trusts_other_facts(instance_id: InstanceId, key: Seq<char>)
    requires
        key != "task.page"@,
        utf8(key).len() > 0,
        utf8(key)[0] != 0x64 && utf8(key)[0] != 0x62 && utf8(key)[0] != 0x61,
    ensures
        !takeover_target((RuntimeFactScope::Instance { instance_id }, key)),
{
    reveal_strlit("device.");
    reveal_strlit("backend.");
    reveal_strlit("application.");
    is_ascii_chars_encode_utf8("device."@);
    is_ascii_chars_encode_utf8("backend."@);
    is_ascii_chars_encode_utf8("application."@);
    if has_prefix(utf8(key), utf8("device."@)) {
        assert(utf8(key).take(7)[0] == utf8(key)[0]);
    }
    if has_prefix(utf8(key), utf8("backend."@)) {
        assert(utf8(key).take(8)[0] == utf8(key)[0]);
    }
    if has_prefix(utf8(key), utf8("application."@)) {
        assert(utf8(key).take(12)[0] == utf8(key)[0]);
    }
}

/// What is distrusted of one instance leaves every fact of the others, and
/// every fact of its own that can be trusted.
pub proof fn law_distrust_is_of_one_instance(facts: Facts, instance_id: InstanceId, id: FactId)
    ensures
        without_untrusted(facts, instance_id).contains_key(id) <==> facts.contains_key(id) && !(
        takeover_target(id) && id.0 == (RuntimeFactScope::Instance { instance_id })),
        without_untrusted(facts, instance_id).contains_key(id) ==> without_untrusted(
            facts,
            instance_id,
        )[id] == facts[id],
{
}

} // verus!
