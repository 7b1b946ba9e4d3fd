//! The course of a change of the runtime's facts: the event is appended to the
//! ledger first, and only then does the store change.

use vstd::prelude::*;
use vstd::string::StringExecFns;

use crate::error::{
    fatal_error, plain_error, request_error, DetailedError, DetailedErrorView, RuntimeErrorCode,
    RuntimeHostError,
};
use crate::runtime_facts::{
    fact_admission, fact_error_code, fact_rejection, runtime_fact_code, runtime_fact_rejection,
    FactId, FactValidity, Facts, RuntimeFactChange, RuntimeFactError, RuntimeFactInvalidation,
    RuntimeFactInvalidationReason, RuntimeFactRecord, RuntimeFactScope, RuntimeFactStore,
};

verus! {

/// What is to be written.
#[derive(Debug)]
pub enum FactJob {
    Record { record: RuntimeFactRecord },
    Invalidate {
        scope: RuntimeFactScope,
        key: String,
        reason: RuntimeFactInvalidationReason,
    },
    /// Seal the store, if it changed since the last seal.
    Snapshot,
    /// Nothing any more.
    Over,
}

/// The next thing to do.
#[derive(Debug, Clone, Copy, PartialEq, Eq, Structural)]
pub enum FactWriteAction {
    TakeGate,
    /// Read the ledger's latest sequence.
    ReadPosition,
    ReadClock,
    /// Let the record, the invalidation or the snapshot say whether it is valid
    /// in itself.
    Validate,
    MakeLinks,
    /// Ask whether the instance of the fact is registered.
    FindInstance,
    Append,
    /// Let the readers of the facts catch up.
    Synchronize,
    /// Stop the host.
    MarkFatal,
}

/// What an action gave.
#[derive(Debug, Clone, Copy)]
pub enum FactWriteReply {
    Done,
    Failed(RuntimeHostError),
    Position(u64),
    Time { unix_ms: u64 },
    Validity(FactValidity),
    Found(bool),
}

/// What was written.
#[derive(Debug)]
pub enum FactWriteOutcome {
    Recorded(RuntimeFactChange),
    Invalidated(RuntimeFactInvalidation),
    /// Whether a snapshot was appended.
    Sealed(bool),
}

/// Why nothing was written, or why memory and ledger disagree.
#[derive(Debug, Clone, Copy)]
pub struct FactWriteFailure {
    pub error: RuntimeHostError,
    /// The refusal of the store, where that is the cause.
    pub refusal: Option<RuntimeFactError>,
    /// The event was appended before.
    pub appended: bool,
}

/// A write in progress.
#[derive(Debug)]
pub struct FactWrite {
    pub job: FactJob,
    pub action: FactWriteAction,
    /// The ledger position that a snapshot seals.
    pub ledger_position: u64,
    /// The time of the invalidation or of the snapshot.
    pub at_unix_ms: u64,
    pub outcome: Option<FactWriteOutcome>,
    pub failure: Option<FactWriteFailure>,
}

/// A write that goes on, or its result.
#[derive(Debug)]
pub enum FactWriteProgress {
    Next(FactWrite),
    End(Result<FactWriteOutcome, FactWriteFailure>),
}

/// The instance that a job is about.
pub open spec fn job_of_instance(job: FactJob) -> bool {
    match job {
        FactJob::Record { record } => record.scope is Instance,
        FactJob::Invalidate { scope, .. } => scope is Instance,
        _ => false,
    }
}

pub open spec fn fact_write_wf(write: FactWrite) -> bool {
    match write.action {
        FactWriteAction::ReadPosition => write.job is Snapshot,
        FactWriteAction::ReadClock => write.job is Snapshot || write.job is Invalidate,
        FactWriteAction::FindInstance => job_of_instance(write.job),
        FactWriteAction::Synchronize => write.outcome is Some,
        FactWriteAction::MarkFatal => write.failure matches Some(failure) && failure.error.fatal,
        _ => !(write.job is Over),
    }
}

/// The reply answers the action.
pub open spec fn fact_reply_fits(write: FactWrite, reply: FactWriteReply) -> bool {
    reply is Failed || match write.action {
        FactWriteAction::ReadPosition => reply is Position,
        FactWriteAction::ReadClock => reply is Time,
        FactWriteAction::Validate => reply is Validity,
        FactWriteAction::FindInstance => reply is Found,
        _ => reply is Done,
    }
}

/// A failure without a refusal of the store.
pub open spec fn outside_failure(error: RuntimeHostError) -> FactWriteFailure {
    FactWriteFailure { error, refusal: None, appended: false }
}

/// The store refused a change before it was appended.
pub open spec fn refused_failure(refusal: RuntimeFactError, operation: &'static str) ->
    FactWriteFailure {
    FactWriteFailure {
        error: fact_rejection(refusal, operation),
        refusal: Some(refusal),
        appended: false,
    }
}

/// The store refused a change that was appended.
pub open spec fn desync_failure(refusal: RuntimeFactError, operation: &'static str) ->
    FactWriteFailure {
    FactWriteFailure {
        error: fatal_error(
            "runtime_fact_store_desync",
            operation,
            RuntimeErrorCode::RuntimeFatal,
        ),
        refusal: Some(refusal),
        appended: true,
    }
}

pub open spec fn unknown_instance() -> RuntimeHostError {
    request_error(
        "runtime_fact_instance_unknown",
        "bind_runtime_fact_scope",
        RuntimeErrorCode::InstanceUnknown,
    )
}

/// The answer to a write that failed: a fatal failure stops the host first.
pub open spec fn write_failed(write: FactWrite, failure: FactWriteFailure) -> FactWriteProgress {
    if failure.error.fatal {
        FactWriteProgress::Next(
            FactWrite {
                job: FactJob::Over,
                action: FactWriteAction::MarkFatal,
                failure: Some(failure),
                ..write
            },
        )
    } else {
        FactWriteProgress::End(Err(failure))
    }
}

/// What follows once no other writer can interfere.
pub open spec fn after_gate(facts: Facts, dirty: bool, write: FactWrite) -> FactWriteProgress {
    let next = |action: FactWriteAction| FactWriteProgress::Next(FactWrite { action, ..write });
    match write.job {
        FactJob::Invalidate { scope, key, .. } => if facts.contains_key((scope, key@)) {
            next(FactWriteAction::ReadClock)
        } else {
            write_failed(
                write,
                refused_failure(RuntimeFactError::Missing, "invalidate_runtime_fact"),
            )
        },
        FactJob::Snapshot => if dirty {
            next(FactWriteAction::ReadPosition)
        } else {
            FactWriteProgress::End(Ok(FactWriteOutcome::Sealed(false)))
        },
        _ => next(FactWriteAction::Validate),
    }
}

/// What follows once it is known whether the job is valid in itself.
pub open spec fn after_validation(
    facts: Facts,
    capacity: usize,
    write: FactWrite,
    validity: FactValidity,
) -> FactWriteProgress {
    let linked = FactWriteProgress::Next(FactWrite { action: FactWriteAction::MakeLinks, ..write });
    match write.job {
        FactJob::Record { record } => match fact_admission(facts, capacity, record, validity) {
            Err(refusal) => write_failed(write, refused_failure(refusal, "record_runtime_fact")),
            Ok(RuntimeFactChange::Unchanged) => FactWriteProgress::End(
                Ok(FactWriteOutcome::Recorded(RuntimeFactChange::Unchanged)),
            ),
            Ok(_) => linked,
        },
        FactJob::Invalidate { .. } => match validity {
            Ok(_) => linked,
            Err(code) => write_failed(
                write,
                outside_failure(
                    request_error(
                        code,
                        "invalidate_runtime_fact",
                        RuntimeErrorCode::InvalidRequest,
                    ),
                ),
            ),
        },
        _ => match validity {
            Ok(_) => linked,
            Err(code) => write_failed(
                write,
                outside_failure(
                    fatal_error(
                        code,
                        "append_runtime_fact_snapshot",
                        RuntimeErrorCode::RuntimeFatal,
                    ),
                ),
            ),
        },
    }
}

/// The facts, whether they changed since the last seal, and the next step,
/// once the event is appended.
pub open spec fn after_append(facts: Facts, capacity: usize, dirty: bool, write: FactWrite) -> (
    Facts,
    bool,
    FactWriteProgress,
) {
    let written = |outcome: FactWriteOutcome|
        FactWriteProgress::Next(
            FactWrite {
                job: FactJob::Over,
                action: FactWriteAction::Synchronize,
                outcome: Some(outcome),
                ..write
            },
        );
    match write.job {
        FactJob::Record { record } => match fact_admission(facts, capacity, record, Ok(())) {
            Err(refusal) => (
                facts,
                dirty,
                write_failed(write, desync_failure(refusal, "record_runtime_fact")),
            ),
            Ok(change) => (
                if change == RuntimeFactChange::Unchanged {
                    facts
                } else {
                    facts.insert(record.id(), record)
                },
                true,
                written(FactWriteOutcome::Recorded(change)),
            ),
        },
        FactJob::Invalidate { scope, key, reason } => if facts.contains_key((scope, key@)) {
            (
                facts.remove((scope, key@)),
                true,
                written(
                    FactWriteOutcome::Invalidated(
                        RuntimeFactInvalidation {
                            scope,
                            key,
                            reason,
                            at_unix_ms: write.at_unix_ms,
                        },
                    ),
                ),
            )
        } else {
            (
                facts,
                dirty,
                write_failed(
                    write,
                    desync_failure(RuntimeFactError::Missing, "invalidate_runtime_fact"),
                ),
            )
        },
        _ => (facts, false, written(FactWriteOutcome::Sealed(true))),
    }
}

/// The facts, whether they changed since the last seal, and the next step,
/// after a reply.
pub open spec fn fact_write_step(
    facts: Facts,
    capacity: usize,
    dirty: bool,
    write: FactWrite,
    reply: FactWriteReply,
) -> (Facts, bool, FactWriteProgress) {
    let go = |progress: FactWriteProgress| (facts, dirty, progress);
    let next = |action: FactWriteAction| go(FactWriteProgress::Next(FactWrite { action, ..write }));
    match (write.action, reply) {
        (FactWriteAction::MarkFatal, FactWriteReply::Failed(error)) => go(
            FactWriteProgress::End(Err(outside_failure(error))),
        ),
        (FactWriteAction::MarkFatal, _) => go(FactWriteProgress::End(Err(write.failure->0))),
        (_, FactWriteReply::Failed(error)) => go(write_failed(write, outside_failure(error))),
        (FactWriteAction::TakeGate, _) => go(after_gate(facts, dirty, write)),
        (_, FactWriteReply::Position(position)) => go(
            FactWriteProgress::Next(
                FactWrite {
                    action: FactWriteAction::ReadClock,
                    ledger_position: position,
                    ..write
                },
            ),
        ),
        (_, FactWriteReply::Time { unix_ms }) => go(
            FactWriteProgress::Next(
                FactWrite { action: FactWriteAction::Validate, at_unix_ms: unix_ms, ..write },
            ),
        ),
        (_, FactWriteReply::Validity(validity)) => go(
            after_validation(facts, capacity, write, validity),
        ),
        (_, FactWriteReply::Found(found)) => if found {
            next(FactWriteAction::Append)
        } else {
            go(write_failed(write, outside_failure(unknown_instance())))
        },
        (FactWriteAction::MakeLinks, _) => if job_of_instance(write.job) {
            next(FactWriteAction::FindInstance)
        } else {
            next(FactWriteAction::Append)
        },
        (FactWriteAction::Append, _) => after_append(facts, capacity, dirty, write),
        _ => go(FactWriteProgress::End(Ok(write.outcome->0))),
    }
}

fn outside(error: RuntimeHostError) -> (failure: FactWriteFailure)
    ensures
        failure == outside_failure(error),
{
    FactWriteFailure { error, refusal: None, appended: false }
}

fn desync(refusal: RuntimeFactError, operation: &'static str) -> (failure: FactWriteFailure)
    ensures
        failure == desync_failure(refusal, operation),
{
    FactWriteFailure {
        error: RuntimeHostError::fatal(
            "runtime_fact_store_desync",
            operation,
            RuntimeErrorCode::RuntimeFatal,
        ),
        refusal: Some(refusal),
        appended: true,
    }
}

fn refused(refusal: RuntimeFactError, operation: &'static str) -> (failure: FactWriteFailure)
    ensures
        failure == refused_failure(refusal, operation),
{
    FactWriteFailure {
        error: runtime_fact_rejection(&refusal, operation),
        refusal: Some(refusal),
        appended: false,
    }
}

impl FactWriteFailure {
    /// The error with its detail. `words` is the refusal of the store in words.
    pub fn detailed(self, words: &str) -> (error: DetailedError)
        ensures
            error@ == match self.refusal {
                None => plain_error(self.error),
                Some(refusal) => DetailedErrorView {
                    native_detail: Some(
                        if self.appended {
                            fact_error_code(refusal)@ + ": "@ + words@
                        } else {
                            words@
                        },
                    ),
                    ..plain_error(self.error)
                },
            },
    {
        let plain = DetailedError::plain(self.error);
        match self.refusal {
            None => plain,
            Some(refusal) => {
                if !self.appended {
                    return plain.with_native_detail(String::from_str(words));
                }
                let mut detail = String::from_str(runtime_fact_code(&refusal));
                detail.append(": ");
                detail.append(words);
                plain.with_native_detail(detail)
            },
        }
    }
}

impl FactWrite {
    /// Begins a write.
    pub fn new(job: FactJob) -> (write: Self)
        requires
            !(job is Over),
        ensures
            fact_write_wf(write),
            write == (FactWrite {
                job,
                action: FactWriteAction::TakeGate,
                ledger_position: 0,
                at_unix_ms: 0,
                outcome: None,
                failure: None,
            }),
    {
        FactWrite {
            job,
            action: FactWriteAction::TakeGate,
            ledger_position: 0,
            at_unix_ms: 0,
            outcome: None,
            failure: None,
        }
    }

    fn fail(self, failure: FactWriteFailure) -> (progress: FactWriteProgress)
        ensures
            progress == write_failed(self, failure),
    {
        if !failure.error.is_fatal() {
            return FactWriteProgress::End(Err(failure));
        }
        let mut write = self;
        write.job = FactJob::Over;
        write.action = FactWriteAction::MarkFatal;
        write.failure = Some(failure);
        FactWriteProgress::Next(write)
    }

    fn go(self, action: FactWriteAction) -> (progress: FactWriteProgress)
        ensures
            progress == FactWriteProgress::Next(FactWrite { action, ..self }),
    {
        let mut write = self;
        write.action = action;
        FactWriteProgress::Next(write)
    }

    fn is_of_instance(&self) -> (of_instance: bool)
        ensures
            of_instance == job_of_instance(self.job),
    {
        let scope = match &self.job {
            FactJob::Record { record } => record.scope,
            FactJob::Invalidate { scope, .. } => *scope,
            _ => {
                return false;
            },
        };
        match scope {
            RuntimeFactScope::Instance { .. } => true,
            RuntimeFactScope::Runtime => false,
        }
    }

    fn gate_taken(self, store: &RuntimeFactStore, dirty: bool) -> (progress: FactWriteProgress)
        requires
            store.wf(),
        ensures
            progress == after_gate(store@, dirty, self),
    {
        match &self.job {
            FactJob::Invalidate { scope, key, .. } => {
                let known = store.get(*scope, key.as_str()).is_some();
                if known {
                    self.go(FactWriteAction::ReadClock)
                } else {
                    self.fail(refused(RuntimeFactError::Missing, "invalidate_runtime_fact"))
                }
            },
            FactJob::Snapshot => {
                if dirty {
                    self.go(FactWriteAction::ReadPosition)
                } else {
                    FactWriteProgress::End(Ok(FactWriteOutcome::Sealed(false)))
                }
            },
            _ => self.go(FactWriteAction::Validate),
        }
    }

    fn validated(self, store: &RuntimeFactStore, validity: FactValidity) -> (progress:
        FactWriteProgress)
        requires
            store.wf(),
        ensures
            progress == after_validation(store@, store.capacity, self, validity),
    {
        match (&self.job, validity) {
            (FactJob::Record { record }, _) => match store.judge(record, validity) {
                Err(refusal) => self.fail(refused(refusal, "record_runtime_fact")),
                Ok(RuntimeFactChange::Unchanged) => FactWriteProgress::End(
                    Ok(FactWriteOutcome::Recorded(RuntimeFactChange::Unchanged)),
                ),
                Ok(_) => self.go(FactWriteAction::MakeLinks),
            },
            (_, Ok(_)) => self.go(FactWriteAction::MakeLinks),
            (FactJob::Invalidate { .. }, Err(code)) => self.fail(
                outside(
                    RuntimeHostError::request(
                        code,
                        "invalidate_runtime_fact",
                        RuntimeErrorCode::InvalidRequest,
                    ),
                ),
            ),
            (_, Err(code)) => self.fail(
                outside(
                    RuntimeHostError::fatal(
                        code,
                        "append_runtime_fact_snapshot",
                        RuntimeErrorCode::RuntimeFatal,
                    ),
                ),
            ),
        }
    }

    fn appended(self, store: &mut RuntimeFactStore, dirty: &mut bool) -> (progress:
        FactWriteProgress)
        requires
            old(store).wf(),
        ensures
            final(store).wf(),
            final(store).capacity == old(store).capacity,
            (final(store)@, *final(dirty), progress) == after_append(
                old(store)@,
                old(store).capacity,
                *old(dirty),
                self,
            ),
    {
        let mut write = self;
        let job = write.job;
        write.job = FactJob::Over;
        write.action = FactWriteAction::Synchronize;
        let outcome = match job {
            FactJob::Record { record } => match store.record(record, Ok(())) {
                Ok(change) => {
                    *dirty = true;
                    FactWriteOutcome::Recorded(change)
                },
                Err(refusal) => {
                    return write.fail(desync(refusal, "record_runtime_fact"));
                },
            },
            FactJob::Invalidate { scope, key, reason } => match store.invalidate(
                scope,
                key.as_str(),
            ) {
                Ok(_) => {
                    *dirty = true;
                    FactWriteOutcome::Invalidated(
                        RuntimeFactInvalidation {
                            scope,
                            key,
                            reason,
                            at_unix_ms: write.at_unix_ms,
                        },
                    )
                },
                Err(refusal) => {
                    return write.fail(desync(refusal, "invalidate_runtime_fact"));
                },
            },
            _ => {
                *dirty = false;
                FactWriteOutcome::Sealed(true)
            },
        };
        write.outcome = Some(outcome);
        FactWriteProgress::Next(write)
    }

    /// Takes the reply to the current action. `dirty` says whether the store
    /// changed since the last seal.
    pub fn advance(
        self,
        store: &mut RuntimeFactStore,
        dirty: &mut bool,
        reply: FactWriteReply,
    ) -> (progress: FactWriteProgress)
        requires
            old(store).wf(),
            fact_write_wf(self),
            fact_reply_fits(self, reply),
        ensures
            final(store).wf(),
            final(store).capacity == old(store).capacity,
            (final(store)@, *final(dirty), progress) == fact_write_step(
                old(store)@,
                old(store).capacity,
                *old(dirty),
                self,
                reply,
            ),
            progress matches FactWriteProgress::Next(next) ==> fact_write_wf(next),
    {
        let mut write = self;
        if write.action == FactWriteAction::MarkFatal {
            return match (reply, write.failure) {
                (FactWriteReply::Failed(error), _) => FactWriteProgress::End(Err(outside(error))),
                (_, Some(failure)) => FactWriteProgress::End(Err(failure)),
                (_, None) => FactWriteProgress::End(Ok(FactWriteOutcome::Sealed(false))),
            };
        }
        match reply {
            FactWriteReply::Failed(error) => write.fail(outside(error)),
            FactWriteReply::Position(position) => {
                write.ledger_position = position;
                write.go(FactWriteAction::ReadClock)
            },
            FactWriteReply::Time { unix_ms } => {
                write.at_unix_ms = unix_ms;
                write.go(FactWriteAction::Validate)
            },
            FactWriteReply::Validity(validity) => write.validated(store, validity),
            FactWriteReply::Found(found) => {
                if found {
                    write.go(FactWriteAction::Append)
                } else {
                    write.fail(
                        outside(
                            RuntimeHostError::request(
                                "runtime_fact_instance_unknown",
                                "bind_runtime_fact_scope",
                                RuntimeErrorCode::InstanceUnknown,
                            ),
                        ),
                    )
                }
            },
            FactWriteReply::Done => match write.action {
                FactWriteAction::TakeGate => write.gate_taken(store, *dirty),
                FactWriteAction::MakeLinks => {
                    if write.is_of_instance() {
                        write.go(FactWriteAction::FindInstance)
                    } else {
                        write.go(FactWriteAction::Append)
                    }
                },
                FactWriteAction::Append => write.appended(store, dirty),
                _ => FactWriteProgress::End(Ok(write.outcome.unwrap())),
            },
        }
    }
}

/// The event comes first: the facts, and whether they changed since the last
/// seal, change only once an event was appended.
pub proof fn law_event_is_appended_first(
    facts: Facts,
    capacity: usize,
    dirty: bool,
    write: FactWrite,
    reply: FactWriteReply,
)
    requires
        fact_write_wf(write),
        fact_reply_fits(write, reply),
    ensures
        ({
            let (after, seal, _) = fact_write_step(facts, capacity, dirty, write, reply);
            after != facts || seal != dirty ==> write.action == FactWriteAction::Append && reply
                is Done
        }),
{
}

/// A record that the store refuses, one that it holds already, and a key that
/// it does not hold come to nothing before the append: their write ends, or
/// only stops the host.
pub proof fn law_refused_change_is_not_appended(
    facts: Facts,
    capacity: usize,
    dirty: bool,
    write: FactWrite,
    reply: FactWriteReply,
)
    requires
        fact_write_wf(write),
        fact_reply_fits(write, reply),
        match (write.job, write.action, reply) {
            (
                FactJob::Record { record },
                FactWriteAction::Validate,
                FactWriteReply::Validity(validity),
            ) => fact_admission(facts, capacity, record, validity) is Err || fact_admission(
                facts,
                capacity,
                record,
                validity,
            ) == Ok::<_, RuntimeFactError>(RuntimeFactChange::Unchanged),
            (
                FactJob::Invalidate { scope, key, .. },
                FactWriteAction::TakeGate,
                FactWriteReply::Done,
            ) => !facts.contains_key((scope, key@)),
            _ => false,
        },
    ensures
        fact_write_step(facts, capacity, dirty, write, reply) matches (
            after,
            seal,
            FactWriteProgress::End(_),
        ) && after == facts && seal == dirty,
{
}

/// The only way to the append of a record leads past the store's own rules,
/// and that of an invalidation past the key.
pub proof fn law_append_follows_admission(
    facts: Facts,
    capacity: usize,
    dirty: bool,
    write: FactWrite,
    reply: FactWriteReply,
)
    requires
        fact_write_wf(write),
        fact_reply_fits(write, reply),
    ensures
        fact_write_step(facts, capacity, dirty, write, reply).2 matches FactWriteProgress::Next(
            next,
        ) ==> {
            &&& next.action == FactWriteAction::Append ==> write.action
                == FactWriteAction::MakeLinks || write.action == FactWriteAction::FindInstance
            &&& next.action == FactWriteAction::FindInstance ==> write.action
                == FactWriteAction::MakeLinks
            &&& next.action == FactWriteAction::MakeLinks ==> write.action
                == FactWriteAction::Validate && (write.job matches FactJob::Record { record } ==> (
            reply matches FactWriteReply::Validity(validity) && (fact_admission(
                facts,
                capacity,
                record,
                validity,
            ) matches Ok(change) && change != RuntimeFactChange::Unchanged)))
            &&& next.action == FactWriteAction::ReadClock && (write.job matches FactJob::Invalidate {
                scope,
                key,
                ..
            }) ==> facts.contains_key((
                write.job->Invalidate_scope,
                write.job->Invalidate_key@,
            ))
        },
{
}

/// A store that did not change since the last seal appends no snapshot, and one
/// whose snapshot was appended has not changed since.
pub proof fn law_unchanged_store_is_not_sealed(
    facts: Facts,
    capacity: usize,
    write: FactWrite,
)
    requires
        write.job is Snapshot,
    ensures
        write.action == FactWriteAction::TakeGate ==> fact_write_step(
            facts,
            capacity,
            false,
            write,
            FactWriteReply::Done,
        ) == (
            facts,
            false,
            FactWriteProgress::End(
                Ok::<_, FactWriteFailure>(FactWriteOutcome::Sealed(false)),
            ),
        ),
        write.action == FactWriteAction::Append ==> fact_write_step(
            facts,
            capacity,
            true,
            write,
            FactWriteReply::Done,
        ).0 == facts && !fact_write_step(facts, capacity, true, write, FactWriteReply::Done).1,
{
}

/// Once a job is written the store holds what it asked for: a recorded fact is
/// held, an invalidated one is gone, and both leave the store to be sealed; a
/// seal changes no fact and leaves nothing to be sealed. No other fact is
/// touched.
pub proof fn law_written_job_is_in_the_store(
    facts: Facts,
    capacity: usize,
    dirty: bool,
    write: FactWrite,
    other: FactId,
)
    requires
        fact_write_wf(write),
        write.action == FactWriteAction::Append,
        fact_write_step(facts, capacity, dirty, write, FactWriteReply::Done).2
            matches FactWriteProgress::Next(next) && next.action == FactWriteAction::Synchronize,
    ensures
        ({
            let (after, sealed, progress) = fact_write_step(
                facts,
                capacity,
                dirty,
                write,
                FactWriteReply::Done,
            );
            match write.job {
                FactJob::Record { record } => {
                    let id = (record.scope, record.key@);
                    &&& after.contains_key(id) && after[id]@ == record@
                    &&& sealed
                    &&& other != id ==> after.contains_key(other) == facts.contains_key(other)
                        && after[other] == facts[other]
                },
                FactJob::Invalidate { scope, key, .. } => {
                    &&& facts.contains_key((scope, key@)) && !after.contains_key((scope, key@))
                    &&& sealed
                    &&& other != (scope, key@) ==> after.contains_key(other) == facts.contains_key(
                        other,
                    ) && after[other] == facts[other]
                },
                _ => after == facts && !sealed,
            }
        }),
{
}

/// A store that refuses what the ledger holds already stops the host before
/// the failure is answered; a refusal before the append only refuses the
/// request.
pub proof fn law_disagreement_stops_the_host(
    facts: Facts,
    capacity: usize,
    dirty: bool,
    write: FactWrite,
    reply: FactWriteReply,
)
    requires
        fact_write_wf(write),
        fact_reply_fits(write, reply),
    ensures
        fact_write_step(facts, capacity, dirty, write, reply).2 matches FactWriteProgress::End(Err(
            failure,
        )) ==> failure.error.fatal ==> write.action == FactWriteAction::MarkFatal,
        fact_write_step(facts, capacity, dirty, write, reply).2 matches FactWriteProgress::Next(next)
            ==> next.action == FactWriteAction::MarkFatal ==> (next.failure matches Some(failure)
            && failure.error.fatal) && fact_write_step(facts, capacity, dirty, write, reply).0
            == facts,
{
}

/// A fact of an instance is appended only once the instance was found to be
/// registered.
pub proof fn law_instances_are_found_before_the_append(
    facts: Facts,
    capacity: usize,
    dirty: bool,
    write: FactWrite,
    reply: FactWriteReply,
)
    requires
        fact_write_wf(write),
        fact_reply_fits(write, reply),
        fact_write_step(facts, capacity, dirty, write, reply).2 matches FactWriteProgress::Next(next)
            && next.action == FactWriteAction::Append,
    ensures
        match write.job {
            FactJob::Record { record } => record.scope is Instance ==> reply
                == FactWriteReply::Found(true),
            FactJob::Invalidate { scope, .. } => scope is Instance ==> reply
                == FactWriteReply::Found(true),
            _ => true,
        },
{
}

} // verus!
