//! Exclusive ownership of a state root: the records of the owner journal and
//! the rules for taking over, retaining, closing and unlocking an epoch.

use vstd::prelude::*;

use crate::error::{fatal_error, RuntimeErrorCode, RuntimeHostError, RuntimeHostResult};
use crate::ids::{
    copy_ids, lemma_listing_unique, lists_in_order, same_ids, sorted_without_duplicates,
    InstanceId, OwnerEpoch,
};

verus! {

/// What the owner journal says of the device resources of an epoch.
#[derive(Debug, Clone, Copy, PartialEq, Eq, Structural)]
pub enum OwnerResourceDisposition {
    /// No resource was acquired, or all were handed back.
    Unused,
    InUse,
    Unconfirmed,
    ConfirmedClosed,
}

/// One line of the owner journal.
#[derive(Debug, Clone)]
pub struct OwnerRecord {
    /// Whether the line carries the schema version that this library writes.
    pub current_schema: bool,
    pub revision: u64,
    pub owner_epoch: OwnerEpoch,
    pub pid: u32,
    pub started_at_unix_ms: u64,
    pub active: bool,
    pub active_instances: Vec<InstanceId>,
    pub closed_at_unix_ms: Option<u64>,
    pub resource_disposition: Option<OwnerResourceDisposition>,
}

/// The value of an owner record.
pub struct OwnerRecordView {
    pub current_schema: bool,
    pub revision: u64,
    pub owner_epoch: OwnerEpoch,
    pub pid: u32,
    pub started_at_unix_ms: u64,
    pub active: bool,
    pub active_instances: Seq<InstanceId>,
    pub closed_at_unix_ms: Option<u64>,
    pub resource_disposition: Option<OwnerResourceDisposition>,
}

impl View for OwnerRecord {
    type V = OwnerRecordView;

    open spec fn view(&self) -> OwnerRecordView {
        OwnerRecordView {
            current_schema: self.current_schema,
            revision: self.revision,
            owner_epoch: self.owner_epoch,
            pid: self.pid,
            started_at_unix_ms: self.started_at_unix_ms,
            active: self.active,
            active_instances: self.active_instances@,
            closed_at_unix_ms: self.closed_at_unix_ms,
            resource_disposition: self.resource_disposition,
        }
    }
}

impl OwnerRecord {
    fn copy(&self) -> (record: Self)
        ensures
            record@ == self@,
    {
        OwnerRecord {
            current_schema: self.current_schema,
            revision: self.revision,
            owner_epoch: self.owner_epoch,
            pid: self.pid,
            started_at_unix_ms: self.started_at_unix_ms,
            active: self.active,
            active_instances: copy_ids(&self.active_instances),
            closed_at_unix_ms: self.closed_at_unix_ms,
            resource_disposition: self.resource_disposition,
        }
    }

    /// The epoch's resources were not confirmed released: nobody may take it
    /// over.
    pub fn holds_resources(&self) -> (held: bool)
        ensures
            held == record_holds_resources(self@),
    {
        self.current_schema && match self.resource_disposition {
            Some(OwnerResourceDisposition::InUse) => true,
            Some(OwnerResourceDisposition::Unconfirmed) => true,
            _ => false,
        }
    }
}

pub open spec fn record_holds_resources(record: OwnerRecordView) -> bool {
    record.current_schema && (record.resource_disposition == Some(OwnerResourceDisposition::InUse)
        || record.resource_disposition == Some(OwnerResourceDisposition::Unconfirmed))
}

/// The start of a new epoch.
#[derive(Debug, Clone)]
pub struct OwnerStartup {
    /// The record to append before anything else happens.
    pub record: OwnerRecord,
    /// The last epoch did not close.
    pub takeover: bool,
    pub takeover_instances: Vec<InstanceId>,
}

/// Why a start is refused after the journal was read, if it is. An epoch is
/// issued only where nothing of the last one is held.
pub open spec fn acquire_refusal(last: Option<OwnerRecordView>, issued: bool) -> Option<
    RuntimeHostError,
> {
    if last matches Some(record) && record_holds_resources(record) {
        Some(
            fatal_error(
                "owner_resource_unconfirmed",
                "acquire_owner_file",
                RuntimeErrorCode::OwnerConflict,
            ),
        )
    } else if !issued {
        Some(
            fatal_error(
                "owner_epoch_issue_failed",
                "acquire_owner_file",
                RuntimeErrorCode::RuntimeFatal,
            ),
        )
    } else if last matches Some(record) && record.revision == u64::MAX {
        Some(
            fatal_error(
                "owner_revision_overflow",
                "acquire_owner_file",
                RuntimeErrorCode::RuntimeFatal,
            ),
        )
    } else {
        None
    }
}

/// The instances that a new epoch inherits.
pub open spec fn inherited_instances(last: Option<OwnerRecordView>) -> Seq<InstanceId> {
    match last {
        Some(record) => if record.active {
            record.active_instances
        } else {
            Seq::empty()
        },
        None => Seq::empty(),
    }
}

/// The first record of a new epoch.
pub open spec fn first_record(
    last: Option<OwnerRecordView>,
    owner_epoch: OwnerEpoch,
    pid: u32,
    started_at_unix_ms: u64,
) -> OwnerRecordView {
    OwnerRecordView {
        current_schema: true,
        revision: match last {
            Some(record) => (record.revision + 1) as u64,
            None => 1,
        },
        owner_epoch,
        pid,
        started_at_unix_ms,
        active: true,
        active_instances: inherited_instances(last),
        closed_at_unix_ms: None,
        resource_disposition: Some(OwnerResourceDisposition::Unused),
    }
}

pub open spec fn optional_record(record: Option<OwnerRecord>) -> Option<OwnerRecordView> {
    match record {
        Some(record) => Some(record@),
        None => None,
    }
}

/// Decides whether an epoch may start after `last`, the journal's last record.
/// `issued` is the new epoch; nothing where none could be issued.
pub fn plan_acquire(
    last: &Option<OwnerRecord>,
    issued: Option<OwnerEpoch>,
    pid: u32,
    started_at_unix_ms: u64,
) -> (result: RuntimeHostResult<OwnerStartup>)
    ensures
        match acquire_refusal(optional_record(*last), issued is Some) {
            Some(error) => result == Err::<OwnerStartup, RuntimeHostError>(error),
            None => {
                let previous = optional_record(*last);
                &&& result matches Ok(startup)
                &&& startup.record@ == first_record(previous, issued->0, pid, started_at_unix_ms)
                &&& startup.takeover == (previous matches Some(record) && record.active)
                &&& startup.takeover_instances@ == inherited_instances(previous)
            },
        },
{
    let mut takeover = false;
    let mut instances: Vec<InstanceId> = Vec::new();
    let mut revision: u64 = 0;
    match last {
        Some(record) => {
            if record.holds_resources() {
                return Err(
                    RuntimeHostError::fatal(
                        "owner_resource_unconfirmed",
                        "acquire_owner_file",
                        RuntimeErrorCode::OwnerConflict,
                    ),
                );
            }
            if record.active {
                takeover = true;
                instances = copy_ids(&record.active_instances);
            }
            revision = record.revision;
        },
        None => {},
    }
    let owner_epoch: OwnerEpoch = match issued {
        Some(owner_epoch) => owner_epoch,
        None => {
            return Err(
                RuntimeHostError::fatal(
                    "owner_epoch_issue_failed",
                    "acquire_owner_file",
                    RuntimeErrorCode::RuntimeFatal,
                ),
            );
        },
    };
    if revision == u64::MAX {
        return Err(
            RuntimeHostError::fatal(
                "owner_revision_overflow",
                "acquire_owner_file",
                RuntimeErrorCode::RuntimeFatal,
            ),
        );
    }
    let takeover_instances = copy_ids(&instances);
    let record = OwnerRecord {
        current_schema: true,
        revision: revision + 1,
        owner_epoch,
        pid,
        started_at_unix_ms,
        active: true,
        active_instances: instances,
        closed_at_unix_ms: None,
        resource_disposition: Some(OwnerResourceDisposition::Unused),
    };
    assert(takeover_instances@ =~= inherited_instances(optional_record(*last)));
    Ok(OwnerStartup { record, takeover, takeover_instances })
}

/// What the guard holds of the locked owner file.
#[derive(Debug, Clone, Copy, PartialEq, Eq, Structural)]
pub enum OwnerFile {
    /// Held; dropping the guard releases it.
    Held,
    /// Kept locked for the rest of the process, still written to.
    Retained,
    /// Kept locked for the rest of the process, out of reach.
    Gone,
}

/// The owner of a state root.
#[derive(Debug)]
pub struct OwnerGuard {
    pub file: OwnerFile,
    /// The last record that reached the journal.
    pub record: OwnerRecord,
    pub closed: bool,
    pub retained_unconfirmed: bool,
    pub retention_result: Option<RuntimeHostResult<()>>,
    pub close_result: Option<RuntimeHostResult<()>>,
}

/// The value of an owner guard.
pub struct OwnerGuardView {
    pub file: OwnerFile,
    pub record: OwnerRecordView,
    pub closed: bool,
    pub retained_unconfirmed: bool,
    pub retention_result: Option<RuntimeHostResult<()>>,
    pub close_result: Option<RuntimeHostResult<()>>,
}

impl View for OwnerGuard {
    type V = OwnerGuardView;

    open spec fn view(&self) -> OwnerGuardView {
        OwnerGuardView {
            file: self.file,
            record: self.record@,
            closed: self.closed,
            retained_unconfirmed: self.retained_unconfirmed,
            retention_result: self.retention_result,
            close_result: self.close_result,
        }
    }
}

pub open spec fn revision_overflow(operation: &'static str) -> RuntimeHostError {
    fatal_error("owner_revision_overflow", operation, RuntimeErrorCode::RuntimeFatal)
}

/// The resources of a retained epoch cannot be declared released.
pub open spec fn retained_refusal(operation: &'static str) -> RuntimeHostError {
    fatal_error("owner_resource_unconfirmed", operation, RuntimeErrorCode::RuntimeFatal)
}

impl OwnerGuardView {
    /// Why the journal cannot be written, if it cannot.
    pub open spec fn file_error(self, operation: &'static str) -> Option<RuntimeHostError> {
        match self.retention_result {
            Some(Err(error)) => Some(error),
            _ => if self.file == OwnerFile::Gone {
                Some(
                    fatal_error("owner_file_missing", operation, RuntimeErrorCode::RuntimeFatal),
                )
            } else {
                None
            },
        }
    }

    /// Why no further record can follow, if none can.
    pub open spec fn append_error(self, operation: &'static str) -> Option<RuntimeHostError> {
        if self.record.revision == u64::MAX {
            Some(revision_overflow(operation))
        } else {
            self.file_error(operation)
        }
    }

    /// The guard after a failed close: a held file stays locked, out of reach.
    pub open spec fn close_failed(self, error: RuntimeHostError) -> OwnerGuardView {
        OwnerGuardView {
            file: if self.file == OwnerFile::Held {
                OwnerFile::Gone
            } else {
                self.file
            },
            retained_unconfirmed: self.retained_unconfirmed || self.file == OwnerFile::Held,
            close_result: Some(Err(error)),
            ..self
        }
    }

    /// Why a close fails before anything is written, if it does.
    pub open spec fn close_refusal(self) -> Option<RuntimeHostError> {
        if self.retained_unconfirmed {
            Some(retained_refusal("close_owner_file"))
        } else {
            self.append_error("close_owner_file")
        }
    }

    /// The guard of an epoch whose resources are not confirmed released: the
    /// file stays locked.
    pub open spec fn retained(self) -> OwnerGuardView {
        OwnerGuardView { file: OwnerFile::Retained, retained_unconfirmed: true, ..self }
    }

    /// The record that declares the resources unconfirmed.
    pub open spec fn retaining_record(self) -> OwnerRecordView {
        self.disposition_record(OwnerResourceDisposition::Unconfirmed)
    }

    /// The record that declares a disposition.
    pub open spec fn disposition_record(self, disposition: OwnerResourceDisposition) ->
        OwnerRecordView {
        OwnerRecordView {
            revision: (self.record.revision + 1) as u64,
            resource_disposition: Some(disposition),
            ..self.record
        }
    }

    /// The record that closes the epoch.
    pub open spec fn closing_record(self, closed_at_unix_ms: u64) -> OwnerRecordView {
        OwnerRecordView {
            revision: (self.record.revision + 1) as u64,
            active: false,
            active_instances: Seq::empty(),
            closed_at_unix_ms: Some(closed_at_unix_ms),
            resource_disposition: Some(OwnerResourceDisposition::Unused),
            ..self.record
        }
    }
}

/// What a retention has to do.
#[derive(Debug)]
pub enum RetainStep {
    /// Nothing is written; this is the answer.
    Done(RuntimeHostResult<()>),
    /// Append the record, then report to `finish_retain`.
    Append(OwnerRecord),
}

/// What a close has to do.
#[derive(Debug)]
pub enum CloseStep {
    /// Nothing is written; this is the answer.
    Done(RuntimeHostResult<()>),
    /// Append the record and unlock the file, then report to `finish_close`.
    Append(OwnerRecord),
}

/// How the writes of a close went.
#[derive(Debug, Clone, Copy)]
pub enum CloseOutcome {
    AppendFailed(RuntimeHostError),
    UnlockFailed,
    Closed,
}

impl OwnerGuard {
    /// The guard of an epoch whose first record reached the journal.
    pub fn started(record: OwnerRecord) -> (guard: Self)
        ensures
            guard@ == (OwnerGuardView {
                file: OwnerFile::Held,
                record: record@,
                closed: false,
                retained_unconfirmed: false,
                retention_result: None,
                close_result: None,
            }),
    {
        OwnerGuard {
            file: OwnerFile::Held,
            record,
            closed: false,
            retained_unconfirmed: false,
            retention_result: None,
            close_result: None,
        }
    }

    fn file_available(&self, operation: &'static str) -> (result: RuntimeHostResult<()>)
        ensures
            match self@.file_error(operation) {
                Some(error) => result == Err::<(), RuntimeHostError>(error),
                None => result is Ok,
            },
    {
        if let Some(Err(error)) = self.retention_result {
            return Err(error);
        }
        if self.file == OwnerFile::Gone {
            return Err(
                RuntimeHostError::fatal(
                    "owner_file_missing",
                    operation,
                    RuntimeErrorCode::RuntimeFatal,
                ),
            );
        }
        Ok(())
    }

    /// The record that declares the active instances; `None` when the journal
    /// already says so. Append it, then call `commit`.
    pub fn set_active_instances(&self, active_instances: &Vec<InstanceId>) -> (result:
        RuntimeHostResult<Option<OwnerRecord>>)
        ensures
            lists_in_order(self.record.active_instances@, active_instances@.to_set())
                ==> result matches Ok(None),
            !lists_in_order(self.record.active_instances@, active_instances@.to_set()) ==> match (
            self@.append_error("update_owner_file")) {
                Some(error) => result == Err::<Option<OwnerRecord>, RuntimeHostError>(error),
                None => {
                    &&& result matches Ok(Some(record))
                    &&& lists_in_order(record.active_instances@, active_instances@.to_set())
                    &&& record@ == (OwnerRecordView {
                        revision: (self.record.revision + 1) as u64,
                        active_instances: record.active_instances@,
                        ..self.record@
                    })
                },
            },
    {
        let sorted = sorted_without_duplicates(active_instances);
        if same_ids(&self.record.active_instances, &sorted) {
            return Ok(None);
        }
        proof {
            if lists_in_order(self.record.active_instances@, active_instances@.to_set()) {
                lemma_listing_unique(self.record.active_instances@, sorted@);
            }
        }
        if self.record.revision == u64::MAX {
            return Err(
                RuntimeHostError::fatal(
                    "owner_revision_overflow",
                    "update_owner_file",
                    RuntimeErrorCode::RuntimeFatal,
                ),
            );
        }
        self.file_available("update_owner_file")?;
        let mut record = self.record.copy();
        record.revision = record.revision + 1;
        record.active_instances = sorted;
        Ok(Some(record))
    }

    /// The record that declares a disposition; `None` when the journal already
    /// says so. Append it, then call `commit`.
    pub fn set_resource_disposition(&self, disposition: OwnerResourceDisposition) -> (result:
        RuntimeHostResult<Option<OwnerRecord>>)
        ensures
            self.retained_unconfirmed ==> result == Err::<Option<OwnerRecord>, RuntimeHostError>(
                retained_refusal("update_owner_resource_disposition"),
            ),
            !self.retained_unconfirmed && self.record.resource_disposition == Some(disposition)
                ==> result matches Ok(None),
            !self.retained_unconfirmed && self.record.resource_disposition != Some(disposition)
                ==> match (self@.append_error("update_owner_resource_disposition")) {
                Some(error) => result == Err::<Option<OwnerRecord>, RuntimeHostError>(error),
                None => {
                    &&& result matches Ok(Some(record))
                    &&& record@ == self@.disposition_record(disposition)
                },
            },
    {
        if self.retained_unconfirmed {
            return Err(
                RuntimeHostError::fatal(
                    "owner_resource_unconfirmed",
                    "update_owner_resource_disposition",
                    RuntimeErrorCode::RuntimeFatal,
                ),
            );
        }
        if let Some(current) = self.record.resource_disposition {
            if current == disposition {
                return Ok(None);
            }
        }
        if self.record.revision == u64::MAX {
            return Err(
                RuntimeHostError::fatal(
                    "owner_revision_overflow",
                    "update_owner_resource_disposition",
                    RuntimeErrorCode::RuntimeFatal,
                ),
            );
        }
        self.file_available("update_owner_resource_disposition")?;
        let mut record = self.record.copy();
        record.revision = record.revision + 1;
        record.resource_disposition = Some(disposition);
        Ok(Some(record))
    }

    /// Takes over a record that reached the journal.
    pub fn commit(&mut self, record: OwnerRecord)
        ensures
            final(self)@ == (OwnerGuardView { record: record@, ..old(self)@ }),
    {
        self.record = record;
    }

    /// Begins to keep the file locked for good because the epoch's resources
    /// are not confirmed released.
    pub fn retain_unconfirmed(&mut self) -> (step: RetainStep)
        ensures
            match old(self).retention_result {
                Some(result) => {
                    &&& step == RetainStep::Done(result)
                    &&& final(self)@ == old(self)@
                },
                None => if old(self).file != OwnerFile::Held {
                    &&& step == RetainStep::Done(
                        Err(
                            fatal_error(
                                "owner_file_missing",
                                "retain_unconfirmed_owner_file",
                                RuntimeErrorCode::RuntimeFatal,
                            ),
                        ),
                    )
                    &&& final(self)@ == old(self)@
                } else if old(self).record.revision == u64::MAX {
                    let error = revision_overflow("update_owner_resource_disposition");
                    &&& step == RetainStep::Done(Err(error))
                    &&& final(self)@ == (OwnerGuardView {
                        retention_result: Some(Err(error)),
                        ..old(self)@.retained()
                    })
                } else {
                    &&& step matches RetainStep::Append(record)
                    &&& record@ == old(self)@.retaining_record()
                    &&& final(self)@ == old(self)@.retained()
                },
            },
    {
        if let Some(result) = self.retention_result {
            return RetainStep::Done(result);
        }
        if self.file != OwnerFile::Held {
            return RetainStep::Done(
                Err(
                    RuntimeHostError::fatal(
                        "owner_file_missing",
                        "retain_unconfirmed_owner_file",
                        RuntimeErrorCode::RuntimeFatal,
                    ),
                ),
            );
        }
        self.file = OwnerFile::Retained;
        self.retained_unconfirmed = true;
        if self.record.revision == u64::MAX {
            let error = RuntimeHostError::fatal(
                "owner_revision_overflow",
                "update_owner_resource_disposition",
                RuntimeErrorCode::RuntimeFatal,
            );
            self.retention_result = Some(Err(error));
            return RetainStep::Done(Err(error));
        }
        let mut record = self.record.copy();
        record.revision = record.revision + 1;
        record.resource_disposition = Some(OwnerResourceDisposition::Unconfirmed);
        RetainStep::Append(record)
    }

    /// Ends a retention whose record was appended, or was not. The answer is
    /// kept and given again to every later retention.
    pub fn finish_retain(&mut self, record: OwnerRecord, appended: RuntimeHostResult<()>) -> (
    result: RuntimeHostResult<()>)
        ensures
            result == appended,
            final(self)@ == (OwnerGuardView {
                record: if appended is Ok {
                    record@
                } else {
                    old(self).record@
                },
                retention_result: Some(appended),
                ..old(self)@
            }),
    {
        if appended.is_ok() {
            self.record = record;
        }
        self.retention_result = Some(appended);
        appended
    }

    /// The disposition of a retained epoch; `None` when it is not retained.
    pub fn retained_resource_disposition(&self) -> (result: RuntimeHostResult<
        Option<OwnerResourceDisposition>,
    >)
        ensures
            match self.retention_result {
                None => result == Ok::<_, RuntimeHostError>(None::<OwnerResourceDisposition>),
                Some(Ok(_)) => result == Ok::<_, RuntimeHostError>(
                    Some(OwnerResourceDisposition::Unconfirmed),
                ),
                Some(Err(error)) => result == Err::<Option<OwnerResourceDisposition>, _>(error),
            },
    {
        match self.retention_result {
            None => Ok(None),
            Some(Ok(_)) => Ok(Some(OwnerResourceDisposition::Unconfirmed)),
            Some(Err(error)) => Err(error),
        }
    }

    fn fail_close(&mut self, error: RuntimeHostError)
        ensures
            final(self)@ == old(self)@.close_failed(error),
    {
        if self.file == OwnerFile::Held {
            self.file = OwnerFile::Gone;
            self.retained_unconfirmed = true;
        }
        self.close_result = Some(Err(error));
    }

    /// Begins to close the epoch. A close that ended once gives the same
    /// answer ever after.
    pub fn close(&mut self, closed_at_unix_ms: u64) -> (step: CloseStep)
        ensures
            match old(self).close_result {
                Some(result) => {
                    &&& step == CloseStep::Done(result)
                    &&& final(self)@ == old(self)@
                },
                None => match old(self)@.close_refusal() {
                    Some(error) => {
                        &&& step == CloseStep::Done(Err(error))
                        &&& final(self)@ == old(self)@.close_failed(error)
                    },
                    None => {
                        &&& step matches CloseStep::Append(record)
                        &&& record@ == old(self)@.closing_record(closed_at_unix_ms)
                        &&& final(self)@ == old(self)@
                    },
                },
            },
    {
        if let Some(result) = self.close_result {
            return CloseStep::Done(result);
        }
        if self.retained_unconfirmed {
            let error = RuntimeHostError::fatal(
                "owner_resource_unconfirmed",
                "close_owner_file",
                RuntimeErrorCode::RuntimeFatal,
            );
            self.fail_close(error);
            return CloseStep::Done(Err(error));
        }
        if self.record.revision == u64::MAX {
            let error = RuntimeHostError::fatal(
                "owner_revision_overflow",
                "close_owner_file",
                RuntimeErrorCode::RuntimeFatal,
            );
            self.fail_close(error);
            return CloseStep::Done(Err(error));
        }
        if let Err(error) = self.file_available("close_owner_file") {
            self.fail_close(error);
            return CloseStep::Done(Err(error));
        }
        let mut record = self.record.copy();
        record.revision = record.revision + 1;
        record.active = false;
        record.active_instances = Vec::new();
        record.closed_at_unix_ms = Some(closed_at_unix_ms);
        record.resource_disposition = Some(OwnerResourceDisposition::Unused);
        assert(record@.active_instances =~= Seq::<InstanceId>::empty());
        CloseStep::Append(record)
    }

    /// Ends a close whose writes were tried.
    pub fn finish_close(&mut self, record: OwnerRecord, outcome: CloseOutcome) -> (result:
        RuntimeHostResult<()>)
        ensures
            match outcome {
                CloseOutcome::AppendFailed(error) => {
                    &&& result == Err::<(), RuntimeHostError>(error)
                    &&& final(self)@ == old(self)@.close_failed(error)
                },
                CloseOutcome::UnlockFailed => {
                    let error = fatal_error(
                        "owner_unlock_failed",
                        "close_owner_file",
                        RuntimeErrorCode::RuntimeFatal,
                    );
                    &&& result == Err::<(), RuntimeHostError>(error)
                    &&& final(self)@ == (OwnerGuardView {
                        record: record@,
                        ..old(self)@
                    }).close_failed(error)
                },
                CloseOutcome::Closed => {
                    &&& result is Ok
                    &&& final(self)@ == (OwnerGuardView {
                        record: record@,
                        closed: true,
                        close_result: Some(Ok(())),
                        ..old(self)@
                    })
                },
            },
    {
        match outcome {
            CloseOutcome::AppendFailed(error) => {
                self.fail_close(error);
                Err(error)
            },
            CloseOutcome::UnlockFailed => {
                let error = RuntimeHostError::fatal(
                    "owner_unlock_failed",
                    "close_owner_file",
                    RuntimeErrorCode::RuntimeFatal,
                );
                self.record = record;
                self.fail_close(error);
                Err(error)
            },
            CloseOutcome::Closed => {
                self.record = record;
                self.closed = true;
                self.close_result = Some(Ok(()));
                Ok(())
            },
        }
    }

    /// Whether dropping the guard must close the epoch first.
    pub fn closes_on_drop(&self, panicking: bool) -> (needed: bool)
        ensures
            needed == !(self.closed || self.retained_unconfirmed || panicking),
    {
        !(self.closed || self.retained_unconfirmed || panicking)
    }
}

/// Why a lock on the owner file was not granted.
#[derive(Debug, Clone, Copy, PartialEq, Eq, Structural)]
pub enum LockRefusal {
    WouldBlock,
    Failed,
}

/// The error of a lock that was not granted.
pub fn owner_lock_error(
    refusal: LockRefusal,
    conflict: &'static str,
    operation: &'static str,
) -> (error: RuntimeHostError)
    ensures
        error == match refusal {
            LockRefusal::WouldBlock => fatal_error(
                conflict,
                operation,
                RuntimeErrorCode::OwnerConflict,
            ),
            LockRefusal::Failed => fatal_error(
                "owner_lock_failed",
                operation,
                RuntimeErrorCode::RuntimeFatal,
            ),
        },
{
    match refusal {
        LockRefusal::WouldBlock => RuntimeHostError::fatal(
            conflict,
            operation,
            RuntimeErrorCode::OwnerConflict,
        ),
        LockRefusal::Failed => RuntimeHostError::fatal(
            "owner_lock_failed",
            operation,
            RuntimeErrorCode::RuntimeFatal,
        ),
    }
}

/// The step at which appending to the owner journal failed.
#[derive(Debug, Clone, Copy, PartialEq, Eq, Structural)]
pub enum AppendFailure {
    Encode,
    Seek,
    Write,
    Sync,
}

/// The error of a record that was not appended.
pub fn owner_append_error(failure: AppendFailure) -> (error: RuntimeHostError)
    ensures
        error == fatal_error(
            match failure {
                AppendFailure::Encode => "owner_record_encode_failed",
                AppendFailure::Seek => "owner_seek_failed",
                AppendFailure::Write => "owner_write_failed",
                AppendFailure::Sync => "owner_sync_failed",
            },
            "write_owner_file",
            RuntimeErrorCode::RuntimeFatal,
        ),
{
    let code = match failure {
        AppendFailure::Encode => "owner_record_encode_failed",
        AppendFailure::Seek => "owner_seek_failed",
        AppendFailure::Write => "owner_write_failed",
        AppendFailure::Sync => "owner_sync_failed",
    };
    RuntimeHostError::fatal(code, "write_owner_file", RuntimeErrorCode::RuntimeFatal)
}

/// The refusal of an unlock.
pub open spec fn unlock_refused(code: &'static str) -> RuntimeHostError {
    fatal_error(code, "unlock_owner_file", RuntimeErrorCode::InvalidRequest)
}

/// The error of an unlock that could not open the owner file. A state root
/// without an owner journal has nothing to unlock.
pub fn unlock_open_error(not_found: bool) -> (error: RuntimeHostError)
    ensures
        error == if not_found {
            unlock_refused("owner_unlock_not_required")
        } else {
            fatal_error(
                "owner_file_open_failed",
                "open_owner_file",
                RuntimeErrorCode::RuntimeFatal,
            )
        },
{
    if not_found {
        RuntimeHostError::fatal(
            "owner_unlock_not_required",
            "unlock_owner_file",
            RuntimeErrorCode::InvalidRequest,
        )
    } else {
        RuntimeHostError::fatal(
            "owner_file_open_failed",
            "open_owner_file",
            RuntimeErrorCode::RuntimeFatal,
        )
    }
}

/// A retained epoch whose resources the operator confirmed released.
#[derive(Debug, Clone)]
pub struct OwnerUnlock {
    /// The record to append.
    pub record: OwnerRecord,
    pub previous_resource_disposition: OwnerResourceDisposition,
}

/// Why an unlock is refused after the journal was read, if it is.
pub open spec fn unlock_refusal(last: Option<OwnerRecordView>, confirmed: bool) -> Option<
    RuntimeHostError,
> {
    match last {
        Some(record) => if !record_holds_resources(record) {
            Some(unlock_refused("owner_unlock_not_required"))
        } else if !confirmed {
            Some(unlock_refused("owner_unlock_confirmation_missing"))
        } else if record.revision == u64::MAX {
            Some(revision_overflow("unlock_owner_file"))
        } else {
            None
        },
        None => Some(unlock_refused("owner_unlock_not_required")),
    }
}

/// The record that confirms the release of an epoch's resources: the same
/// epoch, one revision later.
pub open spec fn unlocked_record(record: OwnerRecordView) -> OwnerRecordView {
    OwnerRecordView {
        revision: (record.revision + 1) as u64,
        resource_disposition: Some(OwnerResourceDisposition::ConfirmedClosed),
        ..record
    }
}

/// Decides whether the last epoch of the journal can be unlocked.
pub fn unlock_retained_owner(last: &Option<OwnerRecord>, confirmed: bool) -> (result:
    RuntimeHostResult<OwnerUnlock>)
    ensures
        match unlock_refusal(optional_record(*last), confirmed) {
            Some(error) => result == Err::<OwnerUnlock, RuntimeHostError>(error),
            None => {
                &&& result matches Ok(unlock)
                &&& last matches Some(record)
                &&& unlock.record@ == unlocked_record(record@)
                &&& record.resource_disposition == Some(unlock.previous_resource_disposition)
            },
        },
{
    if let Some(record) = last {
        if record.holds_resources() {
            if let Some(disposition) = record.resource_disposition {
                if !confirmed {
                    return Err(
                        RuntimeHostError::fatal(
                            "owner_unlock_confirmation_missing",
                            "unlock_owner_file",
                            RuntimeErrorCode::InvalidRequest,
                        ),
                    );
                }
                if record.revision == u64::MAX {
                    return Err(
                        RuntimeHostError::fatal(
                            "owner_revision_overflow",
                            "unlock_owner_file",
                            RuntimeErrorCode::RuntimeFatal,
                        ),
                    );
                }
                let mut unlocked = record.copy();
                unlocked.revision = unlocked.revision + 1;
                unlocked.resource_disposition = Some(OwnerResourceDisposition::ConfirmedClosed);
                return Ok(
                    OwnerUnlock { record: unlocked, previous_resource_disposition: disposition },
                );
            }
        }
    }
    Err(
        RuntimeHostError::fatal(
            "owner_unlock_not_required",
            "unlock_owner_file",
            RuntimeErrorCode::InvalidRequest,
        ),
    )
}

/// An epoch whose resources are in use or unconfirmed is never taken over
/// automatically.
pub proof fn law_unconfirmed_blocks_takeover(record: OwnerRecordView, issued: bool)
    requires
        record_holds_resources(record),
    ensures
        acquire_refusal(Some(record), issued) matches Some(error) && error.code
            == "owner_resource_unconfirmed",
{
}

/// After an unlock the next start takes the epoch over, with its instances,
/// unless the revision counter is used up.
pub proof fn law_unlock_enables_takeover(
    record: OwnerRecordView,
    owner_epoch: OwnerEpoch,
    pid: u32,
    started_at_unix_ms: u64,
)
    requires
        unlock_refusal(Some(record), true) is None,
        record.revision < u64::MAX - 1,
    ensures
        acquire_refusal(Some(unlocked_record(record)), true) is None,
        first_record(
            Some(unlocked_record(record)),
            owner_epoch,
            pid,
            started_at_unix_ms,
        ).revision == record.revision + 2,
        unlocked_record(record).owner_epoch == record.owner_epoch,
        record.active ==> first_record(
            Some(unlocked_record(record)),
            owner_epoch,
            pid,
            started_at_unix_ms,
        ).active_instances == record.active_instances,
        unlock_refusal(Some(unlocked_record(record)), true) == Some(
            unlock_refused("owner_unlock_not_required"),
        ),
{
}

/// A start after a completed close is no takeover and inherits nothing.
pub proof fn law_closed_epoch_is_not_taken_over(guard: OwnerGuardView, closed_at_unix_ms: u64)
    requires
        guard.close_refusal() is None,
        guard.record.revision < u64::MAX - 1,
    ensures
        acquire_refusal(Some(guard.closing_record(closed_at_unix_ms)), true) is None,
        !guard.closing_record(closed_at_unix_ms).active,
        inherited_instances(Some(guard.closing_record(closed_at_unix_ms))) == Seq::<
            InstanceId,
        >::empty(),
{
}

/// A start is refused exactly where the last epoch holds resources that are in
/// use or unconfirmed, where no epoch could be issued, or where the revisions
/// are used up; held resources are named first.
pub proof fn law_start_is_refused_for_held_resources(
    last: Option<OwnerRecordView>,
    issued: bool,
)
    ensures
        ({
            let held = last matches Some(record) && record.current_schema && (
            record.resource_disposition == Some(OwnerResourceDisposition::InUse)
                || record.resource_disposition == Some(OwnerResourceDisposition::Unconfirmed));
            let spent = last matches Some(record) && record.revision == u64::MAX;
            &&& acquire_refusal(last, issued) is None <==> !held && issued && !spent
            &&& held ==> (acquire_refusal(last, issued) matches Some(error) && error.code
                == "owner_resource_unconfirmed" && error.fatal)
        }),
{
}

/// An epoch begins active, with no resources in use, under the next revision,
/// and inherits the instances of an epoch that did not close.
pub proof fn law_epoch_begins_where_the_last_one_stopped(
    last: Option<OwnerRecordView>,
    owner_epoch: OwnerEpoch,
    pid: u32,
    started_at_unix_ms: u64,
)
    requires
        acquire_refusal(last, true) is None,
    ensures
        ({
            let record = first_record(last, owner_epoch, pid, started_at_unix_ms);
            &&& record.active && record.current_schema && record.closed_at_unix_ms is None
            &&& record.resource_disposition == Some(OwnerResourceDisposition::Unused)
            &&& record.owner_epoch == owner_epoch && record.pid == pid
                && record.started_at_unix_ms == started_at_unix_ms
            &&& last is None ==> record.revision == 1 && record.active_instances.len() == 0
            &&& last matches Some(previous) ==> record.revision == previous.revision + 1
                && record.active_instances == if previous.active {
                previous.active_instances
            } else {
                Seq::<InstanceId>::empty()
            }
            &&& acquire_refusal(Some(record), true) is None || record.revision == u64::MAX
        }),
{
}

/// An epoch that is retained keeps its file locked and can neither be closed
/// nor taken over by another start until its resources are confirmed released.
pub proof fn law_retained_epoch_blocks_the_next(guard: OwnerGuardView, issued: bool)
    requires
        guard.record.current_schema,
        guard.record.revision < u64::MAX,
    ensures
        guard.retained().file == OwnerFile::Retained,
        guard.retained().retained_unconfirmed,
        guard.retained().close_refusal() matches Some(error) && error.code
            == "owner_resource_unconfirmed",
        guard.retaining_record().revision == guard.record.revision + 1,
        guard.retaining_record().resource_disposition == Some(
            OwnerResourceDisposition::Unconfirmed,
        ),
        guard.retaining_record().owner_epoch == guard.record.owner_epoch,
        guard.retaining_record().active_instances == guard.record.active_instances,
        acquire_refusal(Some(guard.retaining_record()), issued) matches Some(error) && error.code
            == "owner_resource_unconfirmed",
{
}

/// Resources that are declared in use keep the next start out, and resources
/// that are declared closed do not; nothing else of the record changes but its
/// revision.
pub proof fn law_declared_resources_decide_the_next_start(
    guard: OwnerGuardView,
    disposition: OwnerResourceDisposition,
)
    requires
        guard.record.current_schema,
        guard.record.revision < u64::MAX - 1,
    ensures
        ({
            let record = guard.disposition_record(disposition);
            &&& record.revision == guard.record.revision + 1
            &&& record.active == guard.record.active && record.active_instances
                == guard.record.active_instances && record.owner_epoch == guard.record.owner_epoch
            &&& acquire_refusal(Some(record), true) is Some <==> disposition
                == OwnerResourceDisposition::InUse || disposition
                == OwnerResourceDisposition::Unconfirmed
        }),
{
}

/// A close ends the epoch: it is not active any more, holds no instance and no
/// resource, and tells when it ended. It is refused exactly where the epoch is
/// retained, the revisions are used up, or the file is gone.
pub proof fn law_close_ends_the_epoch(guard: OwnerGuardView, closed_at_unix_ms: u64)
    ensures
        guard.record.revision < u64::MAX ==> {
            let record = guard.closing_record(closed_at_unix_ms);
            &&& !record.active && record.active_instances.len() == 0
            &&& record.closed_at_unix_ms == Some(closed_at_unix_ms)
            &&& record.revision == guard.record.revision + 1
            &&& record.owner_epoch == guard.record.owner_epoch
            &&& record.resource_disposition == Some(OwnerResourceDisposition::Unused)
        },
        guard.close_refusal() is None ==> !guard.retained_unconfirmed && guard.record.revision
            < u64::MAX && guard.file != OwnerFile::Gone,
        !guard.retained_unconfirmed && guard.record.revision < u64::MAX && guard.file
            != OwnerFile::Gone && !(guard.retention_result matches Some(Err(_)))
            ==> guard.close_refusal() is None,
{
}

/// A close that failed keeps the lock it held for good, and is answered the
/// same ever after.
pub proof fn law_failed_close_keeps_the_lock(guard: OwnerGuardView, error: RuntimeHostError)
    ensures
        guard.close_failed(error).close_result == Some(Err::<(), RuntimeHostError>(error)),
        guard.file == OwnerFile::Held ==> guard.close_failed(error).retained_unconfirmed,
        guard.close_failed(error).record == guard.record,
        guard.close_failed(error).closed == guard.closed,
{
}

/// An epoch is unlocked exactly where it holds resources, the operator
/// confirmed that they are released, and a revision is left; otherwise its
/// record stays as it is.
pub proof fn law_unlock_needs_confirmation(last: Option<OwnerRecordView>, confirmed: bool)
    ensures
        unlock_refusal(last, confirmed) is None <==> (last matches Some(record)
            && acquire_refusal(Some(record), true) matches Some(error) && error.code
            == "owner_resource_unconfirmed" && record.revision < u64::MAX) && confirmed,
        last is None ==> (unlock_refusal(last, confirmed) matches Some(error) && error.code
            == "owner_unlock_not_required"),
        last matches Some(record) ==> {
            &&& unlocked_record(record).resource_disposition == Some(
                OwnerResourceDisposition::ConfirmedClosed,
            )
            &&& unlocked_record(record).active == record.active
            &&& unlocked_record(record).active_instances == record.active_instances
            &&& unlocked_record(record).owner_epoch == record.owner_epoch
        },
{
    reveal_strlit("owner_resource_unconfirmed");
    reveal_strlit("owner_epoch_issue_failed");
    reveal_strlit("owner_revision_overflow");
    assert("owner_resource_unconfirmed"@.len() == 26);
    assert("owner_revision_overflow"@.len() == 23);
}

} // verus!
