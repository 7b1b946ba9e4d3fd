//! Ledger evidence adapter for predictive maintenance assessments.

use vstd::prelude::*;
use vstd::string::StringExecFns;
use vstd::utf8::encode_scalar;

use crate::digest::{hex_text, sha256_hex, sha256_of};
use crate::error::{request_error, RuntimeErrorCode, RuntimeHostError, RuntimeHostResult};
use crate::json_text::append_bytes;
use crate::text::{has_control, holds_control, lemma_utf8_injective, same_text, utf8};

verus! {

/// What a fact is about.
#[derive(Debug, Clone, PartialEq, Eq)]
pub enum FactScope {
    Instance { instance_id: String },
    Server { server_id: String },
    Game { game_id: String },
}

/// The value of a scope: its kind and its id.
pub open spec fn scope_parts(scope: FactScope) -> (Seq<char>, Seq<char>) {
    match scope {
        FactScope::Instance { instance_id } => ("instance"@, instance_id@),
        FactScope::Server { server_id } => ("server"@, server_id@),
        FactScope::Game { game_id } => ("game"@, game_id@),
    }
}

/// The same kind of scope with the same id.
pub open spec fn scopes_agree(left: FactScope, right: FactScope) -> bool {
    match (left, right) {
        (FactScope::Instance { instance_id: a }, FactScope::Instance { instance_id: b }) => a@
            == b@,
        (FactScope::Server { server_id: a }, FactScope::Server { server_id: b }) => a@ == b@,
        (FactScope::Game { game_id: a }, FactScope::Game { game_id: b }) => a@ == b@,
        _ => false,
    }
}

impl FactScope {
    pub fn same(&self, other: &Self) -> (same: bool)
        ensures
            same == scopes_agree(*self, *other),
    {
        match (self, other) {
            (FactScope::Instance { instance_id: a }, FactScope::Instance { instance_id: b }) =>
                same_text(a.as_str(), b.as_str()),
            (FactScope::Server { server_id: a }, FactScope::Server { server_id: b }) => same_text(
                a.as_str(),
                b.as_str(),
            ),
            (FactScope::Game { game_id: a }, FactScope::Game { game_id: b }) => same_text(
                a.as_str(),
                b.as_str(),
            ),
            _ => false,
        }
    }
}

/// How trends are assessed.
#[derive(Debug, Clone, Copy, PartialEq, Eq, Structural)]
pub struct MaintenanceTrendPolicy {
    pub lookback_ms: u64,
}

#[derive(Debug, Clone, PartialEq, Eq)]
pub struct MaintenanceLedgerQuery {
    pub instance_id: String,
    pub task_id: String,
    pub fact_scope: FactScope,
    pub fact_key: String,
    pub as_of_unix_ms: u64,
    pub trend_policy: MaintenanceTrendPolicy,
    /// The scope and the policy are well formed in themselves.
    pub parts_well_formed: bool,
}

/// A text of 1 to 512 bytes without control characters.
pub open spec fn query_text_valid(text: Seq<char>) -> bool {
    text.len() > 0 && utf8(text).len() <= 512 && !holds_control(text)
}

pub open spec fn maintenance_refusal(code: &'static str) -> RuntimeHostError {
    request_error(code, "assess_predictive_maintenance", RuntimeErrorCode::InvalidRequest)
}

fn request(code: &'static str) -> (error: RuntimeHostError)
    ensures
        error == maintenance_refusal(code),
{
    RuntimeHostError::request(
        code,
        "assess_predictive_maintenance",
        RuntimeErrorCode::InvalidRequest,
    )
}

fn text_usable(text: &String) -> (usable: bool)
    ensures
        usable == query_text_valid(text@),
{
    !text.as_str().is_empty() && text.as_str().as_bytes().len() <= 512 && !has_control(
        text.as_str(),
    )
}

/// A number as eight bytes, the most significant first.
pub open spec fn be_bytes(value: u64) -> Seq<u8> {
    seq![
        (value / 0x100_0000_0000_0000) as u8,
        (value / 0x1_0000_0000_0000 % 256) as u8,
        (value / 0x100_0000_0000 % 256) as u8,
        (value / 0x1_0000_0000 % 256) as u8,
        (value / 0x100_0000 % 256) as u8,
        (value / 0x1_0000 % 256) as u8,
        (value / 0x100 % 256) as u8,
        (value % 256) as u8,
    ]
}

/// A text after its length.
pub open spec fn framed(text: Seq<char>) -> Seq<u8> {
    be_bytes(utf8(text).len() as u64) + utf8(text)
}

fn append_framed(bytes: &mut Vec<u8>, text: &str)
    ensures
        final(bytes)@ == old(bytes)@ + framed(text@),
{
    let content = text.as_bytes();
    let length: u64 = content.len() as u64;
    let ghost start = bytes@;
    bytes.push((length / 0x100_0000_0000_0000) as u8);
    bytes.push((length / 0x1_0000_0000_0000 % 256) as u8);
    bytes.push((length / 0x100_0000_0000 % 256) as u8);
    bytes.push((length / 0x1_0000_0000 % 256) as u8);
    bytes.push((length / 0x100_0000 % 256) as u8);
    bytes.push((length / 0x1_0000 % 256) as u8);
    bytes.push((length / 0x100 % 256) as u8);
    bytes.push((length % 256) as u8);
    assert(bytes@ =~= start + be_bytes(length));
    let ghost headed = bytes@;
    let mut index: usize = 0;
    assert(bytes@ =~= headed + content@.take(0));
    while index < content.len()
        invariant
            index <= content.len(),
            content@ == utf8(text@),
            bytes@ == headed + content@.take(index as int),
        decreases content.len() - index,
    {
        bytes.push(content[index]);
        assert(content@.take(index + 1) =~= content@.take(index as int).push(
            content@[index as int],
        ));
        index += 1;
    }
    assert(content@.take(index as int) =~= content@);
    assert(bytes@ =~= start + framed(text@));
}

impl MaintenanceLedgerQuery {
    pub open spec fn valid(&self) -> bool {
        &&& query_text_valid(self.instance_id@)
        &&& query_text_valid(self.task_id@)
        &&& query_text_valid(self.fact_key@)
        &&& self.as_of_unix_ms > 0
        &&& self.parts_well_formed
        &&& self.fact_scope matches FactScope::Instance { instance_id } ==> instance_id@
            == self.instance_id@
    }

    pub fn new(
        instance_id: String,
        task_id: String,
        fact_scope: FactScope,
        fact_key: String,
        as_of_unix_ms: u64,
        trend_policy: MaintenanceTrendPolicy,
        parts_well_formed: bool,
    ) -> (result: RuntimeHostResult<Self>)
        ensures
            ({
                let query = MaintenanceLedgerQuery {
                    instance_id,
                    task_id,
                    fact_scope,
                    fact_key,
                    as_of_unix_ms,
                    trend_policy,
                    parts_well_formed,
                };
                if query.valid() {
                    result == Ok::<Self, RuntimeHostError>(query)
                } else {
                    result == Err::<Self, _>(
                        maintenance_refusal("maintenance_ledger_query_invalid"),
                    )
                }
            }),
    {
        let query = MaintenanceLedgerQuery {
            instance_id,
            task_id,
            fact_scope,
            fact_key,
            as_of_unix_ms,
            trend_policy,
            parts_well_formed,
        };
        query.validate()?;
        Ok(query)
    }

    pub fn validate(&self) -> (result: RuntimeHostResult<()>)
        ensures
            result == if self.valid() {
                Ok::<(), RuntimeHostError>(())
            } else {
                Err(maintenance_refusal("maintenance_ledger_query_invalid"))
            },
    {
        let other_instance = match &self.fact_scope {
            FactScope::Instance { instance_id } => !same_text(
                instance_id.as_str(),
                self.instance_id.as_str(),
            ),
            _ => false,
        };
        if !text_usable(&self.instance_id) || !text_usable(&self.task_id) || !text_usable(
            &self.fact_key,
        ) || self.as_of_unix_ms == 0 || !self.parts_well_formed || other_instance {
            return Err(request("maintenance_ledger_query_invalid"));
        }
        Ok(())
    }

    pub fn instance_id(&self) -> (text: &str)
        ensures
            text@ == self.instance_id@,
    {
        self.instance_id.as_str()
    }

    pub fn task_id(&self) -> (text: &str)
        ensures
            text@ == self.task_id@,
    {
        self.task_id.as_str()
    }

    pub fn fact_scope(&self) -> (scope: &FactScope)
        ensures
            *scope == self.fact_scope,
    {
        &self.fact_scope
    }

    pub fn fact_key(&self) -> (text: &str)
        ensures
            text@ == self.fact_key@,
    {
        self.fact_key.as_str()
    }

    pub fn as_of_unix_ms(&self) -> (at: u64)
        ensures
            at == self.as_of_unix_ms,
    {
        self.as_of_unix_ms
    }

    pub fn trend_policy(&self) -> (policy: MaintenanceTrendPolicy)
        ensures
            policy == self.trend_policy,
    {
        self.trend_policy
    }

    /// The bytes that a query's subject is named after.
    pub open spec fn subject_bytes(&self) -> Seq<u8> {
        let (kind, id) = scope_parts(self.fact_scope);
        utf8("actingcommand-maintenance-subject-v1"@) + framed(self.instance_id@) + framed(
            self.task_id@,
        ) + framed(kind) + framed(id) + framed(self.fact_key@)
    }

    pub fn subject_id(&self) -> (id: String)
        ensures
            id@ == "maintenance:"@ + hex_text(sha256_of(self.subject_bytes())),
    {
        let (kind, scope_id) = match &self.fact_scope {
            FactScope::Instance { instance_id } => ("instance", instance_id.as_str()),
            FactScope::Server { server_id } => ("server", server_id.as_str()),
            FactScope::Game { game_id } => ("game", game_id.as_str()),
        };
        let mut bytes: Vec<u8> = Vec::new();
        append_bytes(&mut bytes, &bytes_of("actingcommand-maintenance-subject-v1"));
        append_framed(&mut bytes, self.instance_id.as_str());
        append_framed(&mut bytes, self.task_id.as_str());
        append_framed(&mut bytes, kind);
        append_framed(&mut bytes, scope_id);
        append_framed(&mut bytes, self.fact_key.as_str());
        assert(bytes@ =~= self.subject_bytes());
        let mut id = "maintenance:".to_owned();
        id.append(sha256_hex(bytes.as_slice()).as_str());
        id
    }

    /// When the evidence begins.
    pub open spec fn window_start(&self) -> int {
        if self.as_of_unix_ms >= self.trend_policy.lookback_ms {
            self.as_of_unix_ms - self.trend_policy.lookback_ms
        } else {
            0
        }
    }

    pub open spec fn in_window(&self, observed_at_unix_ms: u64) -> bool {
        self.window_start() <= observed_at_unix_ms <= self.as_of_unix_ms
    }
}

fn bytes_of(text: &str) -> (bytes: Vec<u8>)
    ensures
        bytes@ == utf8(text@),
{
    let content = text.as_bytes();
    let mut bytes: Vec<u8> = Vec::new();
    let mut index: usize = 0;
    assert(content@.take(0) =~= Seq::empty());
    while index < content.len()
        invariant
            index <= content.len(),
            content@ == utf8(text@),
            bytes@ == content@.take(index as int),
        decreases content.len() - index,
    {
        bytes.push(content[index]);
        assert(content@.take(index + 1) =~= content@.take(index as int).push(
            content@[index as int],
        ));
        index += 1;
    }
    assert(content@.take(index as int) =~= content@);
    bytes
}

#[derive(Debug, Clone, Copy, PartialEq, Eq, Structural)]
pub struct DurationEvidence {
    pub ledger_sequence: u64,
    pub observed_at_unix_ms: u64,
    pub duration_ms: u64,
}

#[derive(Debug, Clone, Copy, PartialEq, Eq, Structural)]
pub struct ConfidenceEvidence {
    pub ledger_sequence: u64,
    pub observed_at_unix_ms: u64,
    pub confidence_milli: u16,
}

#[derive(Debug, Clone)]
pub struct MaintenanceEvidence {
    pub subject_id: String,
    pub as_of_unix_ms: u64,
    pub durations: Vec<DurationEvidence>,
    pub confidences: Vec<ConfidenceEvidence>,
}

/// What an event of the ledger says about maintenance.
#[derive(Debug, Clone)]
pub enum MaintenancePayload {
    ExecutionRecorded {
        instance_id: String,
        task_id: String,
        observed_at_unix_ms: u64,
        runtime_ms: u64,
    },
    FactPublished {
        scope: FactScope,
        key: String,
        observed_at_unix_ms: u64,
        confidence_milli: u16,
    },
    Other,
}

#[derive(Debug, Clone)]
pub struct MaintenanceEvent {
    pub sequence: u64,
    pub payload: MaintenancePayload,
}

/// The duration that an event is evidence of.
pub open spec fn duration_in(query: MaintenanceLedgerQuery, event: MaintenanceEvent) -> Option<
    DurationEvidence,
> {
    match event.payload {
        MaintenancePayload::ExecutionRecorded {
            instance_id,
            task_id,
            observed_at_unix_ms,
            runtime_ms,
        } => if instance_id@ == query.instance_id@ && task_id@ == query.task_id@
            && query.in_window(observed_at_unix_ms) {
            Some(
                DurationEvidence {
                    ledger_sequence: event.sequence,
                    observed_at_unix_ms,
                    duration_ms: runtime_ms,
                },
            )
        } else {
            None
        },
        _ => None,
    }
}

/// The confidence that an event is evidence of.
pub open spec fn confidence_in(query: MaintenanceLedgerQuery, event: MaintenanceEvent) -> Option<
    ConfidenceEvidence,
> {
    match event.payload {
        MaintenancePayload::FactPublished {
            scope,
            key,
            observed_at_unix_ms,
            confidence_milli,
        } => if scopes_agree(scope, query.fact_scope) && key@ == query.fact_key@
            && query.in_window(observed_at_unix_ms) {
            Some(
                ConfidenceEvidence {
                    ledger_sequence: event.sequence,
                    observed_at_unix_ms,
                    confidence_milli,
                },
            )
        } else {
            None
        },
        _ => None,
    }
}

/// The durations that some events are evidence of, in order.
pub open spec fn durations_in(query: MaintenanceLedgerQuery, events: Seq<MaintenanceEvent>) -> Seq<
    DurationEvidence,
>
    decreases events.len(),
{
    if events.len() == 0 {
        Seq::empty()
    } else {
        let earlier = durations_in(query, events.drop_last());
        match duration_in(query, events.last()) {
            Some(evidence) => earlier.push(evidence),
            None => earlier,
        }
    }
}

/// The confidences that some events are evidence of, in order.
pub open spec fn confidences_in(query: MaintenanceLedgerQuery, events: Seq<MaintenanceEvent>) -> Seq<
    ConfidenceEvidence,
>
    decreases events.len(),
{
    if events.len() == 0 {
        Seq::empty()
    } else {
        let earlier = confidences_in(query, events.drop_last());
        match confidence_in(query, events.last()) {
            Some(evidence) => earlier.push(evidence),
            None => earlier,
        }
    }
}

proof fn lemma_evidence_grows(
    query: MaintenanceLedgerQuery,
    events: Seq<MaintenanceEvent>,
    count: int,
)
    requires
        0 <= count <= events.len(),
    ensures
        durations_in(query, events.take(count)).len() <= durations_in(query, events).len(),
        confidences_in(query, events.take(count)).len() <= confidences_in(query, events).len(),
    decreases events.len(),
{
    if count == events.len() {
        assert(events.take(count) =~= events);
    } else {
        assert(events.drop_last().take(count) =~= events.take(count));
        lemma_evidence_grows(query, events.drop_last(), count);
    }
}

/// Gathers the evidence for a query. More samples than an assessment takes are
/// refused.
pub fn collect_maintenance_evidence(
    events: &Vec<MaintenanceEvent>,
    query: &MaintenanceLedgerQuery,
    max_samples: usize,
) -> (result: RuntimeHostResult<MaintenanceEvidence>)
    ensures
        if !query.valid() {
            result matches Err(error) && error == maintenance_refusal(
                "maintenance_ledger_query_invalid",
            )
        } else if durations_in(*query, events@).len() > max_samples || confidences_in(
            *query,
            events@,
        ).len() > max_samples {
            result matches Err(error) && error == maintenance_refusal(
                "maintenance_evidence_capacity_exceeded",
            )
        } else {
            &&& result matches Ok(evidence)
            &&& evidence.subject_id@ == "maintenance:"@ + hex_text(
                sha256_of(query.subject_bytes()),
            )
            &&& evidence.as_of_unix_ms == query.as_of_unix_ms
            &&& evidence.durations@ == durations_in(*query, events@)
            &&& evidence.confidences@ == confidences_in(*query, events@)
        },
{
    query.validate()?;
    let start: u64 = if query.as_of_unix_ms >= query.trend_policy.lookback_ms {
        query.as_of_unix_ms - query.trend_policy.lookback_ms
    } else {
        0
    };
    let mut durations: Vec<DurationEvidence> = Vec::new();
    let mut confidences: Vec<ConfidenceEvidence> = Vec::new();
    let mut index: usize = 0;
    assert(events@.take(0) =~= Seq::empty());
    while index < events.len()
        invariant
            index <= events.len(),
            query.valid(),
            start == query.window_start(),
            durations@ == durations_in(*query, events@.take(index as int)),
            confidences@ == confidences_in(*query, events@.take(index as int)),
            durations@.len() <= max_samples,
            confidences@.len() <= max_samples,
        decreases events.len() - index,
    {
        let event = &events[index];
        proof {
            assert(events@.take(index + 1).drop_last() =~= events@.take(index as int));
            assert(events@.take(index + 1).last() == *event);
            lemma_evidence_grows(*query, events@, index + 1);
        }
        match &event.payload {
            MaintenancePayload::ExecutionRecorded {
                instance_id,
                task_id,
                observed_at_unix_ms,
                runtime_ms,
            } => {
                if same_text(instance_id.as_str(), query.instance_id.as_str()) && same_text(
                    task_id.as_str(),
                    query.task_id.as_str(),
                ) && *observed_at_unix_ms >= start && *observed_at_unix_ms <= query.as_of_unix_ms {
                    if durations.len() >= max_samples {
                        return Err(request("maintenance_evidence_capacity_exceeded"));
                    }
                    durations.push(
                        DurationEvidence {
                            ledger_sequence: event.sequence,
                            observed_at_unix_ms: *observed_at_unix_ms,
                            duration_ms: *runtime_ms,
                        },
                    );
                }
            },
            MaintenancePayload::FactPublished {
                scope,
                key,
                observed_at_unix_ms,
                confidence_milli,
            } => {
                if scope.same(&query.fact_scope) && same_text(
                    key.as_str(),
                    query.fact_key.as_str(),
                ) && *observed_at_unix_ms >= start && *observed_at_unix_ms <= query.as_of_unix_ms {
                    if confidences.len() >= max_samples {
                        return Err(request("maintenance_evidence_capacity_exceeded"));
                    }
                    confidences.push(
                        ConfidenceEvidence {
                            ledger_sequence: event.sequence,
                            observed_at_unix_ms: *observed_at_unix_ms,
                            confidence_milli: *confidence_milli,
                        },
                    );
                }
            },
            MaintenancePayload::Other => {},
        }
        index += 1;
    }
    assert(events@.take(events@.len() as int) =~= events@);
    Ok(
        MaintenanceEvidence {
            subject_id: query.subject_id(),
            as_of_unix_ms: query.as_of_unix_ms,
            durations,
            confidences,
        },
    )
}

/// All evidence lies within the window that the query looks back on.
pub proof fn law_evidence_is_recent(
    query: MaintenanceLedgerQuery,
    events: Seq<MaintenanceEvent>,
    index: int,
)
    ensures
        0 <= index < durations_in(query, events).len() ==> query.in_window(
            durations_in(query, events)[index].observed_at_unix_ms,
        ),
        0 <= index < confidences_in(query, events).len() ==> query.in_window(
            confidences_in(query, events)[index].observed_at_unix_ms,
        ),
    decreases events.len(),
{
    if events.len() > 0 {
        law_evidence_is_recent(query, events.drop_last(), index);
    }
}

/// A run of the task on the instance is evidence exactly when it was observed
/// at most the lookback before the time asked for, and not after it.
pub proof fn law_matching_runs_are_evidence(
    query: MaintenanceLedgerQuery,
    events: Seq<MaintenanceEvent>,
    index: int,
)
    requires
        0 <= index < events.len(),
        events[index].payload is ExecutionRecorded,
        events[index].payload->instance_id@ == query.instance_id@,
        events[index].payload->task_id@ == query.task_id@,
        events[index].payload->ExecutionRecorded_observed_at_unix_ms <= query.as_of_unix_ms,
        events[index].payload->ExecutionRecorded_observed_at_unix_ms
            + query.trend_policy.lookback_ms >= query.as_of_unix_ms,
    ensures
        durations_in(query, events).contains(
            (DurationEvidence {
                ledger_sequence: events[index].sequence,
                observed_at_unix_ms: events[index].payload->ExecutionRecorded_observed_at_unix_ms,
                duration_ms: events[index].payload->runtime_ms,
            }),
        ),
    decreases events.len(),
{
    let wanted = DurationEvidence {
        ledger_sequence: events[index].sequence,
        observed_at_unix_ms: events[index].payload->ExecutionRecorded_observed_at_unix_ms,
        duration_ms: events[index].payload->runtime_ms,
    };
    let earlier = durations_in(query, events.drop_last());
    if index == events.len() - 1 {
        assert(durations_in(query, events).last() == wanted);
    } else {
        law_matching_runs_are_evidence(query, events.drop_last(), index);
        let at = choose|at: int| 0 <= at < earlier.len() && earlier[at] == wanted;
        assert(durations_in(query, events)[at] == wanted);
    }
}

/// A published fact is evidence exactly when it has the scope and the key
/// asked for and was observed at most the lookback before the time asked for,
/// and not after it.
pub proof fn law_matching_facts_are_evidence(
    query: MaintenanceLedgerQuery,
    events: Seq<MaintenanceEvent>,
    index: int,
)
    requires
        0 <= index < events.len(),
        events[index].payload is FactPublished,
        scope_parts(events[index].payload->scope) == scope_parts(query.fact_scope),
        events[index].payload->key@ == query.fact_key@,
        events[index].payload->FactPublished_observed_at_unix_ms <= query.as_of_unix_ms,
        events[index].payload->FactPublished_observed_at_unix_ms + query.trend_policy.lookback_ms
            >= query.as_of_unix_ms,
    ensures
        confidences_in(query, events).contains(
            (ConfidenceEvidence {
                ledger_sequence: events[index].sequence,
                observed_at_unix_ms: events[index].payload->FactPublished_observed_at_unix_ms,
                confidence_milli: events[index].payload->confidence_milli,
            }),
        ),
    decreases events.len(),
{
    let wanted = ConfidenceEvidence {
        ledger_sequence: events[index].sequence,
        observed_at_unix_ms: events[index].payload->FactPublished_observed_at_unix_ms,
        confidence_milli: events[index].payload->confidence_milli,
    };
    let earlier = confidences_in(query, events.drop_last());
    if index == events.len() - 1 {
        law_scopes_are_told_apart(events[index].payload->scope, query.fact_scope);
        assert(confidences_in(query, events).last() == wanted);
    } else {
        law_matching_facts_are_evidence(query, events.drop_last(), index);
        let at = choose|at: int| 0 <= at < earlier.len() && earlier[at] == wanted;
        assert(confidences_in(query, events)[at] == wanted);
    }
}

/// Every duration in the evidence is one of the runs of the task on the
/// instance, with its own sequence number, and none comes from elsewhere.
pub proof fn law_durations_come_from_runs(
    query: MaintenanceLedgerQuery,
    events: Seq<MaintenanceEvent>,
    at: int,
) -> (index: int)
    requires
        0 <= at < durations_in(query, events).len(),
    ensures
        0 <= index < events.len(),
        events[index].payload is ExecutionRecorded,
        events[index].payload->instance_id@ == query.instance_id@,
        events[index].payload->task_id@ == query.task_id@,
        durations_in(query, events)[at].ledger_sequence == events[index].sequence,
        durations_in(query, events)[at].duration_ms == events[index].payload->runtime_ms,
        durations_in(query, events)[at].observed_at_unix_ms
            == events[index].payload->ExecutionRecorded_observed_at_unix_ms,
        durations_in(query, events)[at].observed_at_unix_ms <= query.as_of_unix_ms,
        durations_in(query, events)[at].observed_at_unix_ms + query.trend_policy.lookback_ms
            >= query.as_of_unix_ms,
    decreases events.len(),
{
    let earlier = durations_in(query, events.drop_last());
    if at < earlier.len() {
        law_durations_come_from_runs(query, events.drop_last(), at)
    } else {
        events.len() - 1
    }
}

/// Every confidence in the evidence is one of the published facts asked for.
pub proof fn law_confidences_come_from_facts(
    query: MaintenanceLedgerQuery,
    events: Seq<MaintenanceEvent>,
    at: int,
) -> (index: int)
    requires
        0 <= at < confidences_in(query, events).len(),
    ensures
        0 <= index < events.len(),
        events[index].payload is FactPublished,
        scope_parts(events[index].payload->scope) == scope_parts(query.fact_scope),
        events[index].payload->key@ == query.fact_key@,
        confidences_in(query, events)[at].ledger_sequence == events[index].sequence,
        confidences_in(query, events)[at].confidence_milli
            == events[index].payload->confidence_milli,
        confidences_in(query, events)[at].observed_at_unix_ms
            == events[index].payload->FactPublished_observed_at_unix_ms,
        confidences_in(query, events)[at].observed_at_unix_ms <= query.as_of_unix_ms,
        confidences_in(query, events)[at].observed_at_unix_ms + query.trend_policy.lookback_ms
            >= query.as_of_unix_ms,
    decreases events.len(),
{
    let earlier = confidences_in(query, events.drop_last());
    if at < earlier.len() {
        law_confidences_come_from_facts(query, events.drop_last(), at)
    } else {
        events.len() - 1
    }
}

/// Two scopes agree exactly when they are of one kind and carry one name.
pub proof fn law_scopes_are_told_apart(left: FactScope, right: FactScope)
    ensures
        scopes_agree(left, right) <==> scope_parts(left) == scope_parts(right),
        left is Instance && right is Server ==> !scopes_agree(left, right),
        left is Server && right is Game ==> !scopes_agree(left, right),
        left is Game && right is Instance ==> !scopes_agree(left, right),
{
    reveal_strlit("instance");
    reveal_strlit("server");
    reveal_strlit("game");
    assert("instance"@.len() == 8);
    assert("server"@.len() == 6);
    assert("game"@.len() == 4);
}

/// Evidence of a longer ledger is the evidence of its beginning followed by
/// that of its rest.
pub proof fn law_evidence_keeps_the_ledgers_order(
    query: MaintenanceLedgerQuery,
    first: Seq<MaintenanceEvent>,
    rest: Seq<MaintenanceEvent>,
)
    ensures
        durations_in(query, first + rest) == durations_in(query, first) + durations_in(query, rest),
        confidences_in(query, first + rest) == confidences_in(query, first) + confidences_in(
            query,
            rest,
        ),
    decreases rest.len(),
{
    if rest.len() == 0 {
        assert(first + rest =~= first);
        assert(durations_in(query, rest) =~= Seq::empty());
        assert(durations_in(query, first) + durations_in(query, rest) =~= durations_in(
            query,
            first,
        ));
        assert(confidences_in(query, first) + confidences_in(query, rest) =~= confidences_in(
            query,
            first,
        ));
    } else {
        law_evidence_keeps_the_ledgers_order(query, first, rest.drop_last());
        assert((first + rest).drop_last() =~= first + rest.drop_last());
        assert((first + rest).last() == rest.last());
        assert(durations_in(query, first + rest) =~= durations_in(query, first) + durations_in(
            query,
            rest,
        ));
        assert(confidences_in(query, first + rest) =~= confidences_in(query, first)
            + confidences_in(query, rest));
    }
}

/// A number is told by its eight bytes.
proof fn lemma_be_bytes_tell_the_number(left: u64, right: u64)
    requires
        be_bytes(left) == be_bytes(right),
    ensures
        left == right,
{
    lemma_be_bytes_add_up(left);
    lemma_be_bytes_add_up(right);
}

proof fn lemma_be_bytes_add_up(value: u64)
    ensures
        value == be_bytes(value)[0] * 0x100_0000_0000_0000 + be_bytes(value)[1] * 0x1_0000_0000_0000
            + be_bytes(value)[2] * 0x100_0000_0000 + be_bytes(value)[3] * 0x1_0000_0000 + be_bytes(
            value,
        )[4] * 0x100_0000 + be_bytes(value)[5] * 0x1_0000 + be_bytes(value)[6] * 0x100 + be_bytes(
            value,
        )[7],
{
    let q1: int = value as int / 0x100;
    let q2: int = value as int / 0x1_0000;
    let q3: int = value as int / 0x100_0000;
    let q4: int = value as int / 0x1_0000_0000;
    let q5: int = value as int / 0x100_0000_0000;
    let q6: int = value as int / 0x1_0000_0000_0000;
    let q7: int = value as int / 0x100_0000_0000_0000;
    assert(value == q1 * 256 + value % 256);
    assert(q1 == q2 * 256 + q1 % 256);
    assert(q2 == q3 * 256 + q2 % 256);
    assert(q3 == q4 * 256 + q3 % 256);
    assert(q4 == q5 * 256 + q4 % 256);
    assert(q5 == q6 * 256 + q5 % 256);
    assert(q6 == q7 * 256 + q6 % 256);
    assert(q7 < 256);
}

proof fn lemma_rows_are_regrouped(
    a: Seq<u8>,
    b: Seq<u8>,
    c: Seq<u8>,
    d: Seq<u8>,
    e: Seq<u8>,
    f: Seq<u8>,
)
    ensures
        a + b + c + d + e + f == a + (b + (c + (d + (e + (f + Seq::<u8>::empty()))))),
{
    assert(a + b + c + d + e + f =~= a + (b + (c + (d + (e + (f + Seq::<u8>::empty()))))));
}

proof fn lemma_heads_are_dropped(head: Seq<u8>, left: Seq<u8>, right: Seq<u8>)
    requires
        head + left == head + right,
    ensures
        left == right,
{
    assert((head + left).skip(head.len() as int) =~= left);
    assert((head + right).skip(head.len() as int) =~= right);
}

proof fn lemma_frames_are_told_apart(
    left: Seq<char>,
    after_left: Seq<u8>,
    right: Seq<char>,
    after_right: Seq<u8>,
)
    requires
        framed(left) + after_left == framed(right) + after_right,
        utf8(left).len() <= u64::MAX,
        utf8(right).len() <= u64::MAX,
    ensures
        utf8(left) == utf8(right),
        after_left == after_right,
{
    let l = framed(left) + after_left;
    let r = framed(right) + after_right;
    assert(l.take(8) =~= be_bytes(utf8(left).len() as u64));
    assert(r.take(8) =~= be_bytes(utf8(right).len() as u64));
    lemma_be_bytes_tell_the_number(utf8(left).len() as u64, utf8(right).len() as u64);
    let n: int = utf8(left).len() as int;
    assert(l.subrange(8, 8 + n) =~= utf8(left));
    assert(r.subrange(8, 8 + n) =~= utf8(right));
    assert(l.skip(8 + n) =~= after_left);
    assert(r.skip(8 + n) =~= after_right);
}

/// A character takes at most four bytes.
proof fn lemma_characters_are_short(text: Seq<char>)
    ensures
        utf8(text).len() <= 4 * text.len(),
    decreases text.len(),
{
    if text.len() > 0 {
        lemma_characters_are_short(text.drop_first());
        assert(encode_scalar(text[0] as u32).len() <= 4);
    }
}

proof fn lemma_kinds_are_short(scope: FactScope)
    ensures
        utf8(scope_parts(scope).0).len() <= 32,
{
    reveal_strlit("instance");
    reveal_strlit("server");
    reveal_strlit("game");
    lemma_characters_are_short(scope_parts(scope).0);
}

/// Two valid queries have the same subject only when they ask for the same
/// instance, task, fact scope and fact key.
pub proof fn law_subject_tells_the_query(left: MaintenanceLedgerQuery, right: MaintenanceLedgerQuery)
    requires
        left.valid(),
        right.valid(),
        left.subject_bytes() == right.subject_bytes(),
        utf8(scope_parts(left.fact_scope).1).len() <= u64::MAX,
        utf8(scope_parts(right.fact_scope).1).len() <= u64::MAX,
    ensures
        left.instance_id@ == right.instance_id@,
        left.task_id@ == right.task_id@,
        left.fact_key@ == right.fact_key@,
        scopes_agree(left.fact_scope, right.fact_scope),
{
    let head = utf8("actingcommand-maintenance-subject-v1"@);
    let (lk, li) = scope_parts(left.fact_scope);
    let (rk, ri) = scope_parts(right.fact_scope);
    let none = Seq::<u8>::empty();
    let l4 = framed(left.fact_key@) + none;
    let r4 = framed(right.fact_key@) + none;
    let l3 = framed(li) + l4;
    let r3 = framed(ri) + r4;
    let l2 = framed(lk) + l3;
    let r2 = framed(rk) + r3;
    let l1 = framed(left.task_id@) + l2;
    let r1 = framed(right.task_id@) + r2;
    let l0 = framed(left.instance_id@) + l1;
    let r0 = framed(right.instance_id@) + r1;
    lemma_rows_are_regrouped(
        head,
        framed(left.instance_id@),
        framed(left.task_id@),
        framed(lk),
        framed(li),
        framed(left.fact_key@),
    );
    lemma_rows_are_regrouped(
        head,
        framed(right.instance_id@),
        framed(right.task_id@),
        framed(rk),
        framed(ri),
        framed(right.fact_key@),
    );
    lemma_heads_are_dropped(head, l0, r0);
    lemma_frames_are_told_apart(left.instance_id@, l1, right.instance_id@, r1);
    lemma_frames_are_told_apart(left.task_id@, l2, right.task_id@, r2);
    lemma_kinds_are_short(left.fact_scope);
    lemma_kinds_are_short(right.fact_scope);
    lemma_frames_are_told_apart(lk, l3, rk, r3);
    lemma_frames_are_told_apart(li, l4, ri, r4);
    lemma_frames_are_told_apart(left.fact_key@, none, right.fact_key@, none);
    lemma_utf8_injective(left.instance_id@, right.instance_id@);
    lemma_utf8_injective(left.task_id@, right.task_id@);
    lemma_utf8_injective(lk, rk);
    lemma_utf8_injective(li, ri);
    lemma_utf8_injective(left.fact_key@, right.fact_key@);
    law_scopes_are_told_apart(left.fact_scope, right.fact_scope);
}

/// A query is usable exactly when its three texts are not empty, no longer
/// than 512 bytes and free of control characters, it asks for a time, its
/// parts are well formed, and a fact of an instance is one of its own.
pub proof fn law_usable_queries(query: MaintenanceLedgerQuery)
    ensures
        query.valid() ==> query.as_of_unix_ms != 0 && query.parts_well_formed && 1
            <= query.instance_id@.len() && 1 <= query.task_id@.len() && 1 <= query.fact_key@.len(),
        query.valid() ==> utf8(query.instance_id@).len() <= 512 && utf8(query.task_id@).len()
            <= 512 && utf8(query.fact_key@).len() <= 512,
        query.valid() && query.fact_scope is Instance ==> scope_parts(query.fact_scope).1
            == query.instance_id@,
        (query.fact_scope !is Instance || scope_parts(query.fact_scope).1 == query.instance_id@)
            && query_text_valid(query.instance_id@) && query_text_valid(query.task_id@)
            && query_text_valid(query.fact_key@) && query.parts_well_formed && query.as_of_unix_ms
            >= 1 ==> query.valid(),
{
}

} // verus!
