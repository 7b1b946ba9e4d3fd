//! The facts that the host itself produces: backend self-checks, policy
//! settlements and changed text facts of an instance.

use vstd::prelude::*;
use vstd::string::StringExecFns;
use vstd::utf8::is_ascii_chars_encode_utf8;

use crate::error::{
    fatal_error, plain_error, request_error, DetailedError, DetailedErrorView, RuntimeErrorCode,
    RuntimeHostError, RuntimeHostResult,
};
use crate::ids::InstanceId;
use crate::runtime_facts::{
    law_takeover_distrusts_what_it_cannot_see, law_takeover_trusts_other_facts, record_views,
    takeover_target, MAX_RUNTIME_FACT_KEY_BYTES, FactId, FactValue, FactValueView, OriginModule,
    RuntimeFactChange, RuntimeFactRecord, RuntimeFactRecordView, RuntimeFactScope,
    RuntimeFactStore,
};
use crate::text::{
    append_decimal, decimal, has_prefix, lemma_utf8_concat, same_text, starts_with, texts, utf8,
};

verus! {

pub const BACKEND_SELFCHECK_PREFIX: &'static str = "backend.selfcheck.";

/// A fact of an instance without a lifetime.
pub open spec fn instance_fact(
    instance_id: InstanceId,
    key: Seq<char>,
    value: FactValueView,
    observed_at_unix_ms: u64,
    source: OriginModule,
) -> RuntimeFactRecordView {
    RuntimeFactRecordView {
        scope: RuntimeFactScope::Instance { instance_id },
        key,
        value,
        observed_at_unix_ms,
        source,
        ttl_ms: None,
    }
}

fn instance_record(
    instance_id: InstanceId,
    key: String,
    value: FactValue,
    observed_at_unix_ms: u64,
    source: OriginModule,
) -> (record: RuntimeFactRecord)
    ensures
        record@ == instance_fact(instance_id, key@, value@, observed_at_unix_ms, source),
{
    RuntimeFactRecord {
        scope: RuntimeFactScope::Instance { instance_id },
        key,
        value,
        observed_at_unix_ms,
        source,
        ttl_ms: None,
    }
}

/// What one check of a backend showed.
#[derive(Debug, Clone, Copy, PartialEq, Eq, Structural)]
pub enum BackendObservationStatus {
    Passed,
    Failed,
    Unobserved,
}

/// Which backend was opened.
#[derive(Debug, Clone, Copy, PartialEq, Eq, Structural)]
pub enum BackendOpenEntry {
    Input,
    Capture,
    NemuPair,
}

#[derive(Debug, Clone)]
pub struct BackendOpenReport {
    pub entry: BackendOpenEntry,
    pub status: BackendObservationStatus,
    pub connection: BackendObservationStatus,
    pub input_check: BackendObservationStatus,
    pub capture_check: BackendObservationStatus,
    pub session_generation: u64,
    pub selected: Option<String>,
}

/// The checks that count for the backend that was opened.
pub open spec fn relevant_checks(report: BackendOpenReport) -> Seq<BackendObservationStatus> {
    match report.entry {
        BackendOpenEntry::Input => seq![report.status, report.connection, report.input_check],
        BackendOpenEntry::Capture => seq![report.status, report.connection, report.capture_check],
        BackendOpenEntry::NemuPair => seq![
            report.status,
            report.connection,
            report.capture_check,
            report.input_check,
        ],
    }
}

/// `failed` when any check that counts failed, `passed` when all passed,
/// otherwise `unknown`.
pub open spec fn selfcheck_status(report: BackendOpenReport) -> &'static str {
    let checks = relevant_checks(report);
    if exists|i: int|
        0 <= i < checks.len() && #[trigger] checks[i] == BackendObservationStatus::Failed {
        "failed"
    } else if forall|i: int|
        0 <= i < checks.len() ==> #[trigger] checks[i] == BackendObservationStatus::Passed {
        "passed"
    } else {
        "unknown"
    }
}

pub fn backend_selfcheck_status(report: &BackendOpenReport) -> (status: &'static str)
    ensures
        status == selfcheck_status(*report),
{
    let failed = BackendObservationStatus::Failed;
    let passed = BackendObservationStatus::Passed;
    let ghost checks = relevant_checks(*report);
    let (any_failed, all_passed) = match report.entry {
        BackendOpenEntry::Input => (report.input_check == failed, report.input_check == passed),
        BackendOpenEntry::Capture => (
            report.capture_check == failed,
            report.capture_check == passed,
        ),
        BackendOpenEntry::NemuPair => (
            report.capture_check == failed || report.input_check == failed,
            report.capture_check == passed && report.input_check == passed,
        ),
    };
    assert(checks[0] == report.status);
    assert(checks[1] == report.connection);
    assert(checks[2] == if report.entry == BackendOpenEntry::Input {
        report.input_check
    } else {
        report.capture_check
    });
    assert(report.entry == BackendOpenEntry::NemuPair ==> checks[3] == report.input_check);
    if report.status == failed || report.connection == failed || any_failed {
        "failed"
    } else if report.status == passed && report.connection == passed && all_passed {
        "passed"
    } else {
        "unknown"
    }
}

/// The name of a backend in the keys of its facts.
pub open spec fn entry_name(entry: BackendOpenEntry) -> Seq<char> {
    match entry {
        BackendOpenEntry::Input => "input"@,
        BackendOpenEntry::Capture => "capture"@,
        BackendOpenEntry::NemuPair => "nemu"@,
    }
}

pub open spec fn entry_source(entry: BackendOpenEntry) -> OriginModule {
    match entry {
        BackendOpenEntry::Capture => OriginModule::Capture,
        _ => OriginModule::DeviceProxy,
    }
}

pub open spec fn selfcheck_key(entry: BackendOpenEntry, suffix: Seq<char>) -> Seq<char> {
    BACKEND_SELFCHECK_PREFIX@ + entry_name(entry) + "."@ + suffix
}

fn selfcheck_fact_key(entry: BackendOpenEntry, suffix: &str) -> (key: String)
    ensures
        key@ == selfcheck_key(entry, suffix@),
{
    let mut key = String::from_str(BACKEND_SELFCHECK_PREFIX);
    let name = match entry {
        BackendOpenEntry::Input => "input",
        BackendOpenEntry::Capture => "capture",
        BackendOpenEntry::NemuPair => "nemu",
    };
    key.append(name);
    key.append(".");
    key.append(suffix);
    key
}

/// The four facts of one backend open.
pub open spec fn selfcheck_facts(
    instance_id: InstanceId,
    report: BackendOpenReport,
    observed_at_unix_ms: u64,
) -> Seq<RuntimeFactRecordView> {
    let source = entry_source(report.entry);
    let selected = match report.selected {
        Some(name) => name@,
        None => "-"@,
    };
    let checked_at = if observed_at_unix_ms <= i64::MAX {
        observed_at_unix_ms as i64
    } else {
        i64::MAX
    };
    seq![
        instance_fact(
            instance_id,
            selfcheck_key(report.entry, "status"@),
            FactValueView::Text(selfcheck_status(report)@),
            observed_at_unix_ms,
            source,
        ),
        instance_fact(
            instance_id,
            selfcheck_key(report.entry, "generation"@),
            FactValueView::Integer(report.session_generation as i64),
            observed_at_unix_ms,
            source,
        ),
        instance_fact(
            instance_id,
            selfcheck_key(report.entry, "selected"@),
            FactValueView::Text(selected),
            observed_at_unix_ms,
            source,
        ),
        instance_fact(
            instance_id,
            selfcheck_key(report.entry, "checked_at_unix_ms"@),
            FactValueView::Integer(checked_at),
            observed_at_unix_ms,
            source,
        ),
    ]
}

/// The facts to record for a backend open. The clock is sampled once, so all
/// four share one observation time; the checked-at fact saturates.
pub fn backend_selfcheck_facts(
    instance_id: InstanceId,
    report: &BackendOpenReport,
    observed_at_unix_ms: u64,
) -> (result: RuntimeHostResult<Vec<RuntimeFactRecord>>)
    ensures
        report.session_generation <= i64::MAX ==> (result matches Ok(records) && record_views(
            records@,
        ) == selfcheck_facts(instance_id, *report, observed_at_unix_ms)),
        report.session_generation > i64::MAX ==> (result matches Err(error) && error == fatal_error(
            "backend_selfcheck_fact_overflow",
            "record_backend_selfcheck_facts",
            RuntimeErrorCode::RuntimeFatal,
        )),
{
    if report.session_generation > i64::MAX as u64 {
        return Err(
            RuntimeHostError::fatal(
                "backend_selfcheck_fact_overflow",
                "record_backend_selfcheck_facts",
                RuntimeErrorCode::RuntimeFatal,
            ),
        );
    }
    let source = match report.entry {
        BackendOpenEntry::Capture => OriginModule::Capture,
        _ => OriginModule::DeviceProxy,
    };
    let selected = match &report.selected {
        Some(name) => name.clone(),
        None => String::from_str("-"),
    };
    let checked_at: i64 = if observed_at_unix_ms <= i64::MAX as u64 {
        observed_at_unix_ms as i64
    } else {
        i64::MAX
    };
    let mut records: Vec<RuntimeFactRecord> = Vec::new();
    records.push(
        instance_record(
            instance_id,
            selfcheck_fact_key(report.entry, "status"),
            FactValue::Text(String::from_str(backend_selfcheck_status(report))),
            observed_at_unix_ms,
            source,
        ),
    );
    records.push(
        instance_record(
            instance_id,
            selfcheck_fact_key(report.entry, "generation"),
            FactValue::Integer(report.session_generation as i64),
            observed_at_unix_ms,
            source,
        ),
    );
    records.push(
        instance_record(
            instance_id,
            selfcheck_fact_key(report.entry, "selected"),
            FactValue::Text(selected),
            observed_at_unix_ms,
            source,
        ),
    );
    records.push(
        instance_record(
            instance_id,
            selfcheck_fact_key(report.entry, "checked_at_unix_ms"),
            FactValue::Integer(checked_at),
            observed_at_unix_ms,
            source,
        ),
    );
    assert(record_views(records@) =~= selfcheck_facts(instance_id, *report, observed_at_unix_ms));
    Ok(records)
}

/// A self-check fact of an instance.
pub open spec fn is_selfcheck_fact(instance_id: InstanceId, id: FactId) -> bool {
    id.0 == (RuntimeFactScope::Instance { instance_id }) && has_prefix(
        utf8(id.1),
        utf8(BACKEND_SELFCHECK_PREFIX@),
    )
}

pub open spec fn id_keys(ids: Seq<FactId>) -> Seq<Seq<char>> {
    ids.map_values(|id: FactId| id.1)
}

/// The keys of the self-check facts that the store holds for an instance, in
/// order: what to invalidate once its device is closed.
pub fn stored_selfcheck_keys(store: &RuntimeFactStore, instance_id: InstanceId) -> (keys: Vec<
    String,
>)
    requires
        store.wf(),
    ensures
        texts(keys@) == id_keys(
            store.records.keys().filter(|id: FactId| is_selfcheck_fact(instance_id, id)),
        ),
{
    let mut keys: Vec<String> = Vec::new();
    let ghost ids = store.records.keys();
    let ghost wanted = |id: FactId| is_selfcheck_fact(instance_id, id);
    let mut index: usize = 0;
    proof {
        reveal(Seq::filter);
        assert(ids.take(0) =~= Seq::empty());
        assert(texts(keys@) =~= id_keys(ids.take(0).filter(wanted)));
    }
    while index < store.records.entries.len()
        invariant
            index <= store.records.entries.len(),
            ids == store.records.keys(),
            wanted == (|id: FactId| is_selfcheck_fact(instance_id, id)),
            texts(keys@) == id_keys(ids.take(index as int).filter(wanted)),
        decreases store.records.entries.len() - index,
    {
        let entry = &store.records.entries[index];
        proof {
            reveal(Seq::filter);
            let taken = ids.take(index + 1);
            assert(taken.drop_last() =~= ids.take(index as int));
            assert(taken.last() == ids[index as int]);
            assert(ids[index as int] == (entry.0.scope, entry.0.key@));
        }
        let of_instance = match entry.0.scope {
            RuntimeFactScope::Instance { instance_id: other } => other == instance_id,
            RuntimeFactScope::Runtime => false,
        };
        if of_instance && starts_with(entry.0.key.as_str(), BACKEND_SELFCHECK_PREFIX) {
            let ghost before = keys@;
            keys.push(entry.0.key.clone());
            proof {
                let kept = ids.take(index as int).filter(wanted);
                assert(texts(keys@) =~= texts(before).push(ids[index as int].1));
                assert(id_keys(kept.push(ids[index as int])) =~= id_keys(kept).push(
                    ids[index as int].1,
                ));
            }
        }
        index += 1;
    }
    assert(ids.take(ids.len() as int) =~= ids);
    keys
}

/// The latest executed run of a task on an instance.
#[derive(Debug, Clone)]
pub struct PolicySettlement {
    pub instance_alias: String,
    pub catalog_task_id: String,
    pub duration_ms: u64,
    pub succeeded: bool,
    pub failure_streak: u64,
    pub completed_at_unix_ms: u64,
}

pub open spec fn settlement_key(task_id: Seq<char>, suffix: Seq<char>) -> Seq<char> {
    "task."@ + task_id + "."@ + suffix
}

pub fn task_settlement_fact_key(task_id: &str, suffix: &str) -> (key: String)
    ensures
        key@ == settlement_key(task_id@, suffix@),
{
    let mut key = String::from_str("task.");
    key.append(task_id);
    key.append(".");
    key.append(suffix);
    key
}

/// The four facts of a settlement.
pub open spec fn settlement_facts(
    settlement: PolicySettlement,
    instance_id: InstanceId,
) -> Seq<RuntimeFactRecordView> {
    let task_id = settlement.catalog_task_id@;
    let at = settlement.completed_at_unix_ms;
    seq![
        instance_fact(
            instance_id,
            settlement_key(task_id, "last_duration_ms"@),
            FactValueView::Integer(settlement.duration_ms as i64),
            at,
            OriginModule::Policy,
        ),
        instance_fact(
            instance_id,
            settlement_key(task_id, "last_outcome"@),
            FactValueView::Text(
                if settlement.succeeded {
                    "succeeded"@
                } else {
                    "failed"@
                },
            ),
            at,
            OriginModule::Policy,
        ),
        instance_fact(
            instance_id,
            settlement_key(task_id, "failure_streak"@),
            FactValueView::Integer(settlement.failure_streak as i64),
            at,
            OriginModule::Policy,
        ),
        instance_fact(
            instance_id,
            settlement_key(task_id, "completed_at_unix_ms"@),
            FactValueView::Integer(at as i64),
            at,
            OriginModule::Policy,
        ),
    ]
}

/// The numbers of a settlement fit a fact.
pub open spec fn settlement_fits(settlement: PolicySettlement) -> bool {
    settlement.duration_ms <= i64::MAX && settlement.failure_streak <= i64::MAX
        && settlement.completed_at_unix_ms <= i64::MAX
}

pub open spec fn settlement_overflow() -> RuntimeHostError {
    fatal_error(
        "policy_settlement_fact_overflow",
        "record_policy_settlement_facts",
        RuntimeErrorCode::RuntimeFatal,
    )
}

/// The facts to record for a settlement.
pub fn settlement_fact_records(settlement: &PolicySettlement, instance_id: InstanceId) -> (result:
    RuntimeHostResult<Vec<RuntimeFactRecord>>)
    ensures
        settlement_fits(*settlement) ==> (result matches Ok(records) && record_views(records@)
            == settlement_facts(*settlement, instance_id)),
        !settlement_fits(*settlement) ==> (result matches Err(error) && error
            == settlement_overflow()),
{
    let largest: u64 = i64::MAX as u64;
    if settlement.duration_ms > largest || settlement.failure_streak > largest
        || settlement.completed_at_unix_ms > largest {
        return Err(
            RuntimeHostError::fatal(
                "policy_settlement_fact_overflow",
                "record_policy_settlement_facts",
                RuntimeErrorCode::RuntimeFatal,
            ),
        );
    }
    let task_id = settlement.catalog_task_id.as_str();
    let at: u64 = settlement.completed_at_unix_ms;
    let outcome = if settlement.succeeded {
        String::from_str("succeeded")
    } else {
        String::from_str("failed")
    };
    let mut records: Vec<RuntimeFactRecord> = Vec::new();
    records.push(
        instance_record(
            instance_id,
            task_settlement_fact_key(task_id, "last_duration_ms"),
            FactValue::Integer(settlement.duration_ms as i64),
            at,
            OriginModule::Policy,
        ),
    );
    records.push(
        instance_record(
            instance_id,
            task_settlement_fact_key(task_id, "last_outcome"),
            FactValue::Text(outcome),
            at,
            OriginModule::Policy,
        ),
    );
    records.push(
        instance_record(
            instance_id,
            task_settlement_fact_key(task_id, "failure_streak"),
            FactValue::Integer(settlement.failure_streak as i64),
            at,
            OriginModule::Policy,
        ),
    );
    records.push(
        instance_record(
            instance_id,
            task_settlement_fact_key(task_id, "completed_at_unix_ms"),
            FactValue::Integer(at as i64),
            at,
            OriginModule::Policy,
        ),
    );
    assert(record_views(records@) =~= settlement_facts(*settlement, instance_id));
    Ok(records)
}

pub open spec fn unknown_settlement_instance() -> RuntimeHostError {
    fatal_error(
        "policy_settlement_instance_unknown",
        "record_policy_settlement_facts",
        RuntimeErrorCode::RuntimeFatal,
    )
}

/// The instance a settlement belongs to must be registered.
pub fn require_settlement_instance(found: Option<InstanceId>) -> (result: RuntimeHostResult<
    InstanceId,
>)
    ensures
        match found {
            Some(instance_id) => result == Ok::<_, RuntimeHostError>(instance_id),
            None => result == Err::<InstanceId, _>(unknown_settlement_instance()),
        },
{
    match found {
        Some(instance_id) => Ok(instance_id),
        None => Err(
            RuntimeHostError::fatal(
                "policy_settlement_instance_unknown",
                "record_policy_settlement_facts",
                RuntimeErrorCode::RuntimeFatal,
            ),
        ),
    }
}

/// All four settlement keys of a task fit the bound on keys.
pub open spec fn settlement_keys_fit(task_id: Seq<char>) -> bool {
    &&& utf8(settlement_key(task_id, "last_duration_ms"@)).len() <= MAX_RUNTIME_FACT_KEY_BYTES
    &&& utf8(settlement_key(task_id, "last_outcome"@)).len() <= MAX_RUNTIME_FACT_KEY_BYTES
    &&& utf8(settlement_key(task_id, "failure_streak"@)).len() <= MAX_RUNTIME_FACT_KEY_BYTES
    &&& utf8(settlement_key(task_id, "completed_at_unix_ms"@)).len() <= MAX_RUNTIME_FACT_KEY_BYTES
}

fn key_fits(task_id: &str, suffix: &str) -> (fits: bool)
    ensures
        fits == (utf8(settlement_key(task_id@, suffix@)).len() <= MAX_RUNTIME_FACT_KEY_BYTES),
{
    let key = task_settlement_fact_key(task_id, suffix);
    key.as_str().as_bytes().len() <= MAX_RUNTIME_FACT_KEY_BYTES
}

/// The first task whose settlement keys are too long.
pub open spec fn is_first_unfit(task_ids: Seq<String>, index: int) -> bool {
    &&& 0 <= index < task_ids.len()
    &&& !settlement_keys_fit(task_ids[index]@)
    &&& forall|i: int| 0 <= i < index ==> settlement_keys_fit(#[trigger] task_ids[i]@)
}

/// The refusal of a task whose settlement keys are too long.
pub open spec fn unfit_task(task_id: Seq<char>) -> DetailedErrorView {
    DetailedErrorView {
        native_detail: Some(
            "task id '"@ + task_id + "' is "@ + decimal(utf8(task_id).len())
                + " bytes; its settlement fact keys allow at most 102 bytes"@,
        ),
        ..plain_error(
            request_error(
                "task_id_too_long_for_facts",
                "activate_policy_catalog",
                RuntimeErrorCode::InvalidRequest,
            ),
        )
    }
}

/// Refuses a catalog with a task whose settlement keys would be too long,
/// before any run of it.
pub fn validate_settlement_fact_keys(task_ids: &Vec<String>) -> (result: Result<(), DetailedError>)
    ensures
        (forall|i: int| 0 <= i < task_ids@.len() ==> settlement_keys_fit(#[trigger] task_ids@[i]@))
            ==> result is Ok,
        forall|i: int| #[trigger]
            is_first_unfit(task_ids@, i) ==> (result matches Err(error) && error@ == unfit_task(
                task_ids@[i]@,
            )),
        result is Err ==> exists|i: int| is_first_unfit(task_ids@, i),
{
    let mut index: usize = 0;
    while index < task_ids.len()
        invariant
            index <= task_ids.len(),
            forall|i: int| 0 <= i < index ==> settlement_keys_fit(#[trigger] task_ids@[i]@),
        decreases task_ids.len() - index,
    {
        let task_id = task_ids[index].as_str();
        if !(key_fits(task_id, "last_duration_ms") && key_fits(task_id, "last_outcome")
            && key_fits(task_id, "failure_streak") && key_fits(task_id, "completed_at_unix_ms")) {
            assert(is_first_unfit(task_ids@, index as int));
            assert forall|i: int| #[trigger] is_first_unfit(task_ids@, i) implies i == index by {
                if i < index {
                    assert(settlement_keys_fit(task_ids@[i]@));
                } else if i > index {
                    assert(settlement_keys_fit(task_ids@[index as int]@));
                }
            }
            let mut detail = String::from_str("task id '");
            detail.append(task_id);
            detail.append("' is ");
            append_decimal(&mut detail, task_id.as_bytes().len() as u64);
            detail.append(" bytes; its settlement fact keys allow at most 102 bytes");
            return Err(
                DetailedError::plain(
                    RuntimeHostError::request(
                        "task_id_too_long_for_facts",
                        "activate_policy_catalog",
                        RuntimeErrorCode::InvalidRequest,
                    ),
                ).with_native_detail(detail),
            );
        }
        index += 1;
    }
    Ok(())
}

/// A task id may have at most 102 bytes.
pub proof fn law_longest_task_id(task_id: Seq<char>)
    ensures
        settlement_keys_fit(task_id) == (utf8(task_id).len() <= 102),
{
    lemma_settlement_key_length(task_id, "last_duration_ms"@);
    lemma_settlement_key_length(task_id, "last_outcome"@);
    lemma_settlement_key_length(task_id, "failure_streak"@);
    lemma_settlement_key_length(task_id, "completed_at_unix_ms"@);
    reveal_strlit("last_duration_ms");
    reveal_strlit("last_outcome");
    reveal_strlit("failure_streak");
    reveal_strlit("completed_at_unix_ms");
    is_ascii_chars_encode_utf8("last_duration_ms"@);
    is_ascii_chars_encode_utf8("last_outcome"@);
    is_ascii_chars_encode_utf8("failure_streak"@);
    is_ascii_chars_encode_utf8("completed_at_unix_ms"@);
}

proof fn lemma_settlement_key_length(task_id: Seq<char>, suffix: Seq<char>)
    ensures
        utf8(settlement_key(task_id, suffix)).len() == 6 + utf8(task_id).len() + utf8(suffix).len(),
{
    reveal_strlit("task.");
    reveal_strlit(".");
    is_ascii_chars_encode_utf8("task."@);
    is_ascii_chars_encode_utf8("."@);
    lemma_utf8_concat("task."@, task_id);
    lemma_utf8_concat("task."@ + task_id, "."@);
    lemma_utf8_concat("task."@ + task_id + "."@, suffix);
}

/// The record to append when a text fact of an instance changed; `None` when
/// the store already holds the value.
pub fn changed_instance_string_fact(
    store: &RuntimeFactStore,
    instance_id: InstanceId,
    key: &str,
    value: &str,
    observed_at_unix_ms: u64,
) -> (changed: Option<RuntimeFactRecord>)
    requires
        store.wf(),
    ensures
        ({
            let id: FactId = (RuntimeFactScope::Instance { instance_id }, key@);
            if store@.contains_key(id) && store@[id].value@ == FactValueView::Text(value@) {
                changed is None
            } else {
                changed matches Some(record) && record@ == instance_fact(
                    instance_id,
                    key@,
                    FactValueView::Text(value@),
                    observed_at_unix_ms,
                    OriginModule::Runtime,
                )
            }
        }),
{
    let wanted = FactValue::Text(String::from_str(value));
    if let Some(record) = store.get(RuntimeFactScope::Instance { instance_id }, key) {
        if record.value.same(&wanted) {
            return None;
        }
    }
    Some(
        instance_record(
            instance_id,
            String::from_str(key),
            wanted,
            observed_at_unix_ms,
            OriginModule::Runtime,
        ),
    )
}

/// A second observation within one millisecond keeps the first: that a fact
/// is stale is no error here.
pub fn settle_changed_fact(result: RuntimeHostResult<RuntimeFactChange>) -> (settled:
    RuntimeHostResult<()>)
    ensures
        match result {
            Ok(_) => settled is Ok,
            Err(error) => if error.code@ == "runtime_fact_stale"@ {
                settled is Ok
            } else {
                settled == Err::<(), _>(error)
            },
        },
{
    match result {
        Ok(_) => Ok(()),
        Err(error) => {
            if same_text(error.code, "runtime_fact_stale") {
                Ok(())
            } else {
                Err(error)
            }
        },
    }
}

/// A self-check failed exactly where something that matters for what was opened
/// failed, and passed exactly where all of it passed: the status and the
/// connection always, the input for an input or a pair, the capture for a
/// capture or a pair.
pub proof fn law_selfcheck_looks_at_what_matters(report: BackendOpenReport)
    ensures
        ({
            let failed = BackendObservationStatus::Failed;
            let passed = BackendObservationStatus::Passed;
            let of_input = report.entry != BackendOpenEntry::Capture;
            let of_capture = report.entry != BackendOpenEntry::Input;
            let any_failed = report.status == failed || report.connection == failed || (of_input
                && report.input_check == failed) || (of_capture && report.capture_check == failed);
            let all_passed = report.status == passed && report.connection == passed && (of_input
                ==> report.input_check == passed) && (of_capture ==> report.capture_check
                == passed);
            selfcheck_status(report)@ == if any_failed {
                "failed"@
            } else if all_passed {
                "passed"@
            } else {
                "unknown"@
            }
        }),
{
    let failed = BackendObservationStatus::Failed;
    let checks = relevant_checks(report);
    assert(checks[0] == report.status && checks[1] == report.connection);
    if report.entry == BackendOpenEntry::Input {
        assert(checks[2] == report.input_check);
    } else {
        assert(checks[2] == report.capture_check);
        if report.entry == BackendOpenEntry::NemuPair {
            assert(checks[3] == report.input_check);
        }
    }
}

/// Every fact of a backend's opening is one that a closed device drops and a
/// takeover does not trust.
pub proof fn law_selfcheck_facts_are_dropped(
    instance_id: InstanceId,
    entry: BackendOpenEntry,
    suffix: Seq<char>,
)
    ensures
        is_selfcheck_fact(
            instance_id,
            (RuntimeFactScope::Instance { instance_id }, selfcheck_key(entry, suffix)),
        ),
        takeover_target(
            (RuntimeFactScope::Instance { instance_id }, selfcheck_key(entry, suffix)),
        ),
{
    let prefix = BACKEND_SELFCHECK_PREFIX@;
    let rest = entry_name(entry) + "."@ + suffix;
    let key = selfcheck_key(entry, suffix);
    assert(key =~= prefix + rest);
    lemma_utf8_concat(prefix, rest);
    assert((utf8(prefix) + utf8(rest)).take(utf8(prefix).len() as int) =~= utf8(prefix));
    reveal_strlit("backend.selfcheck.");
    reveal_strlit("backend.");
    let tail = prefix.skip(8);
    assert(prefix =~= "backend."@ + tail);
    assert(key =~= "backend."@ + (tail + rest));
    law_takeover_distrusts_what_it_cannot_see(instance_id, tail + rest, key);
}

/// The facts of an instance's backends are its own: no other instance's and
/// not the runtime's.
pub proof fn law_selfcheck_facts_are_of_one_instance(instance_id: InstanceId, id: FactId)
    requires
        is_selfcheck_fact(instance_id, id),
    ensures
        id.0 matches RuntimeFactScope::Instance { instance_id: own } && own == instance_id,
{
}

/// A takeover trusts the facts of settlements.
pub proof fn law_settlements_survive_a_takeover(
    instance_id: InstanceId,
    task_id: Seq<char>,
    suffix: Seq<char>,
)
    ensures
        !takeover_target(
            (RuntimeFactScope::Instance { instance_id }, settlement_key(task_id, suffix)),
        ),
{
    reveal_strlit("task.");
    reveal_strlit(".");
    reveal_strlit("task.page");
    is_ascii_chars_encode_utf8("task."@);
    let key = settlement_key(task_id, suffix);
    let rest = task_id + "."@ + suffix;
    assert(key =~= "task."@ + rest);
    lemma_utf8_concat("task."@, rest);
    assert(utf8(key)[0] == utf8("task."@)[0]);
    assert(utf8("task."@)[0] == 0x74);
    assert(key != "task.page"@) by {
        if key == "task.page"@ {
            let dot = 5 + task_id.len() as int;
            assert(key[dot] == '.');
            assert(dot < 9);
            assert("task.page"@[5] == 'p' && "task.page"@[6] == 'a' && "task.page"@[7] == 'g'
                && "task.page"@[8] == 'e');
        }
    }
    law_takeover_trusts_other_facts(instance_id, key);
}

/// A settlement's facts say how long the run took, whether it succeeded, how
/// many failures came in a row and when it ended; all are of the run's
/// instance, observed at the end of the run.
pub proof fn law_settlement_facts_tell_the_run(
    settlement: PolicySettlement,
    instance_id: InstanceId,
    index: int,
)
    requires
        settlement_fits(settlement),
        0 <= index < 4,
    ensures
        ({
            let facts = settlement_facts(settlement, instance_id);
            &&& facts.len() == 4
            &&& facts[index].scope == (RuntimeFactScope::Instance { instance_id })
            &&& facts[index].observed_at_unix_ms == settlement.completed_at_unix_ms
            &&& facts[index].source == OriginModule::Policy && facts[index].ttl_ms is None
            &&& facts[0].value matches FactValueView::Integer(took) && took
                == settlement.duration_ms
            &&& facts[1].value matches FactValueView::Text(outcome) && (outcome == "succeeded"@
                <==> settlement.succeeded)
            &&& facts[2].value matches FactValueView::Integer(streak) && streak
                == settlement.failure_streak
            &&& facts[3].value matches FactValueView::Integer(at) && at
                == settlement.completed_at_unix_ms
        }),
{
    reveal_strlit("succeeded");
    reveal_strlit("failed");
    assert("succeeded"@.len() == 9 && "failed"@.len() == 6);
}

/// The facts of a backend's opening carry its status, its generation and what
/// was selected, all of the opened instance and observed when it was opened.
pub proof fn law_selfcheck_facts_tell_the_opening(
    instance_id: InstanceId,
    report: BackendOpenReport,
    observed_at_unix_ms: u64,
    index: int,
)
    requires
        report.session_generation <= i64::MAX,
        0 <= index < 4,
    ensures
        ({
            let facts = selfcheck_facts(instance_id, report, observed_at_unix_ms);
            &&& facts.len() == 4
            &&& facts[index].scope == (RuntimeFactScope::Instance { instance_id })
            &&& facts[index].observed_at_unix_ms == observed_at_unix_ms
            &&& facts[index].ttl_ms is None
            &&& facts[index].source == OriginModule::Capture <==> report.entry
                == BackendOpenEntry::Capture
            &&& facts[0].value == FactValueView::Text(selfcheck_status(report)@)
            &&& facts[1].value matches FactValueView::Integer(generation) && generation
                == report.session_generation
            &&& report.selected matches Some(name) ==> facts[2].value == FactValueView::Text(name@)
            &&& facts[3].value matches FactValueView::Integer(at) && (observed_at_unix_ms
                <= i64::MAX ==> at == observed_at_unix_ms)
        }),
{
}

} // verus!
