//! Timing observations of a contained task: spans of calls, summed up by
//! phase, boundary and append stage.
//!
//! An instant is a number of nanoseconds on the process clock. What passes
//! between two instants is told in whole microseconds.

use vstd::prelude::*;

verus! {

/// Why an observation is not complete.
#[derive(Debug, Clone, Copy, PartialEq, Eq, Structural)]
pub enum TimingObservationIssue {
    CallIncomplete,
    CountOverflow,
    SumOverflow,
    ClockReversed,
}

#[derive(Debug, Clone, Copy, PartialEq, Eq, Structural)]
pub enum ObservedMicroseconds {
    Measured { value: u64 },
    Unavailable { reason: TimingObservationIssue },
}

/// The time between two instants.
pub open spec fn span_between(started: u64, ended: u64) -> ObservedMicroseconds {
    if started <= ended {
        ObservedMicroseconds::Measured { value: ((ended - started) / 1_000) as u64 }
    } else {
        ObservedMicroseconds::Unavailable { reason: TimingObservationIssue::ClockReversed }
    }
}

pub fn observe_instant_span(started: u64, ended: u64) -> (span: ObservedMicroseconds)
    ensures
        span == span_between(started, ended),
{
    if started <= ended {
        ObservedMicroseconds::Measured { value: (ended - started) / 1_000 }
    } else {
        ObservedMicroseconds::Unavailable { reason: TimingObservationIssue::ClockReversed }
    }
}

/// How a call ended.
#[derive(Debug, Clone, Copy, PartialEq, Eq, Structural)]
pub enum TaskTimingResult {
    Succeeded,
    Failed,
    Unobserved,
}

pub open spec fn result_of(succeeded: bool) -> TaskTimingResult {
    if succeeded {
        TaskTimingResult::Succeeded
    } else {
        TaskTimingResult::Failed
    }
}

/// Whose deadline a budget counts down to.
#[derive(Debug, Clone, Copy, PartialEq, Eq, Structural)]
pub enum TaskTimingBudgetOrigin {
    Task,
    Recovery,
}

#[derive(Debug, Clone, Copy, PartialEq, Eq, Structural)]
pub enum TaskTimingBudgetObservation {
    NotStarted,
    Unobserved,
    Observed { origin: TaskTimingBudgetOrigin, expired: bool, remaining_us: u64 },
    Unavailable { reason: TimingObservationIssue },
}

/// The deadline under which a task runs.
#[derive(Debug, Clone, Copy, PartialEq, Eq, Structural)]
pub struct TaskTimingContext {
    pub origin: TaskTimingBudgetOrigin,
    /// The instant at which the budget is used up.
    pub deadline: u64,
}

/// What is left of a budget at an instant.
pub open spec fn budget_left(context: TaskTimingContext, at: u64) -> TaskTimingBudgetObservation {
    TaskTimingBudgetObservation::Observed {
        origin: context.origin,
        expired: at >= context.deadline,
        remaining_us: if at >= context.deadline {
            0
        } else {
            ((context.deadline - at) / 1_000) as u64
        },
    }
}

/// The budget at an instant: unobserved without an instant, not started
/// without a deadline.
pub open spec fn budget_seen(
    context: Option<TaskTimingContext>,
    at: Option<u64>,
) -> TaskTimingBudgetObservation {
    match at {
        None => TaskTimingBudgetObservation::Unobserved,
        Some(at) => match context {
            None => TaskTimingBudgetObservation::NotStarted,
            Some(context) => budget_left(context, at),
        },
    }
}

fn budget(context: Option<TaskTimingContext>, at: Option<u64>) -> (seen: TaskTimingBudgetObservation)
    ensures
        seen == budget_seen(context, at),
{
    match at {
        None => TaskTimingBudgetObservation::Unobserved,
        Some(at) => match context {
            None => TaskTimingBudgetObservation::NotStarted,
            Some(context) => TaskTimingBudgetObservation::Observed {
                origin: context.origin,
                expired: at >= context.deadline,
                remaining_us: if at >= context.deadline {
                    0
                } else {
                    (context.deadline - at) / 1_000
                },
            },
        },
    }
}

#[derive(Debug, Clone, Copy, PartialEq, Eq, Structural)]
pub struct TaskTimingSample {
    pub elapsed_us: ObservedMicroseconds,
    pub budget_before: TaskTimingBudgetObservation,
    pub result: TaskTimingResult,
    pub record_index: Option<u64>,
    pub frame_id: Option<u128>,
    pub recognition_id: Option<u128>,
}

#[derive(Debug, Clone, Copy, PartialEq, Eq, Structural)]
pub struct TaskTimingCallContext {
    pub budget_after: TaskTimingBudgetObservation,
    pub step_index: Option<u32>,
    pub action_id: Option<u128>,
}

#[derive(Debug, Clone, Copy, PartialEq, Eq, Structural)]
pub enum TaskTimingObservationState {
    Unobserved,
    Observed,
    Incomplete { reason: TimingObservationIssue },
}

/// The sum of all calls of one kind.
#[derive(Debug, Clone, Copy)]
pub struct TaskTimingSpanSummary {
    pub status: TaskTimingObservationState,
    pub attempts: Option<u64>,
    pub errors: Option<u64>,
    pub total_us: Option<u64>,
    pub max_us: Option<u64>,
    pub last: Option<TaskTimingSample>,
    pub last_call: Option<TaskTimingCallContext>,
}

pub open spec fn unobserved_span() -> TaskTimingSpanSummary {
    TaskTimingSpanSummary {
        status: TaskTimingObservationState::Unobserved,
        attempts: Some(0),
        errors: Some(0),
        total_us: None,
        max_us: None,
        last: None,
        last_call: None,
    }
}

/// A counter plus some more; lost for good once it overflows.
pub open spec fn counted(count: Option<u64>, more: int) -> Option<u64> {
    match count {
        Some(count) => if count + more <= u64::MAX {
            Some((count + more) as u64)
        } else {
            None
        },
        None => None,
    }
}

/// The first reason why an observation is incomplete stays.
pub open spec fn marked_incomplete(
    status: TaskTimingObservationState,
    reason: TimingObservationIssue,
) -> TaskTimingObservationState {
    if status is Incomplete {
        status
    } else {
        TaskTimingObservationState::Incomplete { reason }
    }
}

/// The total after a sample.
pub open spec fn total_after(
    summary: TaskTimingSpanSummary,
    elapsed: ObservedMicroseconds,
) -> Option<u64> {
    match elapsed {
        ObservedMicroseconds::Unavailable { .. } => None,
        ObservedMicroseconds::Measured { value } => if summary.status is Unobserved {
            Some(value)
        } else {
            counted(summary.total_us, value as int)
        },
    }
}

/// The longest call after a sample.
pub open spec fn max_after(
    summary: TaskTimingSpanSummary,
    elapsed: ObservedMicroseconds,
) -> Option<u64> {
    match elapsed {
        ObservedMicroseconds::Unavailable { .. } => None,
        ObservedMicroseconds::Measured { value } => if summary.status is Unobserved {
            Some(value)
        } else {
            match summary.max_us {
                Some(longest) => Some(
                    if longest >= value {
                        longest
                    } else {
                        value
                    },
                ),
                None => None,
            }
        },
    }
}

/// Why a sample leaves the summary incomplete: a lost counter, then a lost or
/// missing time, then a budget that could not be read.
pub open spec fn sample_issue(
    summary: TaskTimingSpanSummary,
    sample: TaskTimingSample,
) -> Option<TimingObservationIssue> {
    let failed = if sample.result == TaskTimingResult::Failed {
        1int
    } else {
        0
    };
    if counted(summary.attempts, 1) is None || counted(summary.errors, failed) is None {
        Some(TimingObservationIssue::CountOverflow)
    } else if sample.elapsed_us matches ObservedMicroseconds::Unavailable { .. } {
        Some(sample.elapsed_us->reason)
    } else if !(summary.status is Unobserved) && summary.total_us is Some && total_after(
        summary,
        sample.elapsed_us,
    ) is None {
        Some(TimingObservationIssue::SumOverflow)
    } else if sample.budget_before is Unavailable {
        Some(sample.budget_before->Unavailable_reason)
    } else {
        None
    }
}

/// A summary after one more sample.
pub open spec fn observed(
    summary: TaskTimingSpanSummary,
    sample: TaskTimingSample,
) -> TaskTimingSpanSummary {
    let failed = if sample.result == TaskTimingResult::Failed {
        1int
    } else {
        0
    };
    TaskTimingSpanSummary {
        status: match sample_issue(summary, sample) {
            Some(reason) => marked_incomplete(summary.status, reason),
            None => if summary.status is Incomplete {
                summary.status
            } else {
                TaskTimingObservationState::Observed
            },
        },
        attempts: counted(summary.attempts, 1),
        errors: counted(summary.errors, failed),
        total_us: total_after(summary, sample.elapsed_us),
        max_us: max_after(summary, sample.elapsed_us),
        last: Some(sample),
        last_call: summary.last_call,
    }
}

fn add_count(count: Option<u64>, more: u64) -> (sum: Option<u64>)
    ensures
        sum == counted(count, more as int),
{
    match count {
        Some(count) => count.checked_add(more),
        None => None,
    }
}

impl TaskTimingSpanSummary {
    pub fn new() -> (summary: Self)
        ensures
            summary == unobserved_span(),
    {
        TaskTimingSpanSummary {
            status: TaskTimingObservationState::Unobserved,
            attempts: Some(0),
            errors: Some(0),
            total_us: None,
            max_us: None,
            last: None,
            last_call: None,
        }
    }

    /// Marks the summary incomplete unless it already is.
    pub fn incomplete(&mut self, reason: TimingObservationIssue)
        ensures
            *final(self) == (TaskTimingSpanSummary {
                status: marked_incomplete(old(self).status, reason),
                ..*old(self)
            }),
    {
        match self.status {
            TaskTimingObservationState::Incomplete { .. } => {},
            _ => {
                self.status = TaskTimingObservationState::Incomplete { reason };
            },
        }
    }

    /// Adds a sample.
    pub fn observe(&mut self, sample: TaskTimingSample)
        ensures
            *final(self) == observed(*old(self), sample),
    {
        let first = match self.status {
            TaskTimingObservationState::Unobserved => true,
            _ => false,
        };
        self.attempts = add_count(self.attempts, 1);
        let failed: u64 = if sample.result == TaskTimingResult::Failed {
            1
        } else {
            0
        };
        self.errors = add_count(self.errors, failed);
        if self.attempts.is_none() || self.errors.is_none() {
            self.incomplete(TimingObservationIssue::CountOverflow);
        }
        match sample.elapsed_us {
            ObservedMicroseconds::Measured { value } => {
                if first {
                    self.total_us = Some(value);
                    self.max_us = Some(value);
                } else {
                    if let Some(total) = self.total_us {
                        self.total_us = total.checked_add(value);
                        if self.total_us.is_none() {
                            self.incomplete(TimingObservationIssue::SumOverflow);
                        }
                    }
                    if let Some(longest) = self.max_us {
                        if longest < value {
                            self.max_us = Some(value);
                        }
                    }
                }
            },
            ObservedMicroseconds::Unavailable { reason } => {
                self.total_us = None;
                self.max_us = None;
                self.incomplete(reason);
            },
        }
        if let TaskTimingBudgetObservation::Unavailable { reason } = sample.budget_before {
            self.incomplete(reason);
        }
        self.last = Some(sample);
        match self.status {
            TaskTimingObservationState::Incomplete { .. } => {},
            _ => {
                self.status = TaskTimingObservationState::Observed;
            },
        }
    }
}

#[derive(Debug, Clone, Copy, PartialEq, Eq, Structural)]
pub enum TaskTimingAppendStage {
    FactGate,
    Draft,
    LedgerSend,
    LedgerQueue,
    LedgerDurable,
    LedgerPersistence,
    LedgerPublication,
    WriterResponse,
    DeviceDiagnostics,
    FactSync,
    Pipeline,
}

/// The stages of one append to the ledger.
#[derive(Debug, Clone, Copy)]
pub struct TaskTimingAppendStages {
    pub fact_gate: TaskTimingSpanSummary,
    pub draft: TaskTimingSpanSummary,
    pub ledger_send: TaskTimingSpanSummary,
    pub ledger_queue: TaskTimingSpanSummary,
    pub ledger_durable: TaskTimingSpanSummary,
    pub ledger_persistence: TaskTimingSpanSummary,
    pub ledger_publication: TaskTimingSpanSummary,
    pub writer_response: TaskTimingSpanSummary,
    pub device_diagnostics: TaskTimingSpanSummary,
    pub fact_sync: TaskTimingSpanSummary,
    pub pipeline: TaskTimingSpanSummary,
    /// What the writer said of the last append.
    pub writer: Option<WriterObservation>,
}

impl TaskTimingAppendStages {
    pub open spec fn span(self, key: TaskTimingAppendStage) -> TaskTimingSpanSummary {
        match key {
            TaskTimingAppendStage::FactGate => self.fact_gate,
            TaskTimingAppendStage::Draft => self.draft,
            TaskTimingAppendStage::LedgerSend => self.ledger_send,
            TaskTimingAppendStage::LedgerQueue => self.ledger_queue,
            TaskTimingAppendStage::LedgerDurable => self.ledger_durable,
            TaskTimingAppendStage::LedgerPersistence => self.ledger_persistence,
            TaskTimingAppendStage::LedgerPublication => self.ledger_publication,
            TaskTimingAppendStage::WriterResponse => self.writer_response,
            TaskTimingAppendStage::DeviceDiagnostics => self.device_diagnostics,
            TaskTimingAppendStage::FactSync => self.fact_sync,
            TaskTimingAppendStage::Pipeline => self.pipeline,
        }
    }

    /// The same table with one span replaced.
    pub open spec fn with(self, key: TaskTimingAppendStage, span: TaskTimingSpanSummary) -> Self {
        match key {
            TaskTimingAppendStage::FactGate => TaskTimingAppendStages { fact_gate: span, ..self },
            TaskTimingAppendStage::Draft => TaskTimingAppendStages { draft: span, ..self },
            TaskTimingAppendStage::LedgerSend => TaskTimingAppendStages { ledger_send: span, ..self },
            TaskTimingAppendStage::LedgerQueue => TaskTimingAppendStages { ledger_queue: span, ..self },
            TaskTimingAppendStage::LedgerDurable => TaskTimingAppendStages { ledger_durable: span, ..self },
            TaskTimingAppendStage::LedgerPersistence => TaskTimingAppendStages { ledger_persistence: span, ..self },
            TaskTimingAppendStage::LedgerPublication => TaskTimingAppendStages { ledger_publication: span, ..self },
            TaskTimingAppendStage::WriterResponse => TaskTimingAppendStages { writer_response: span, ..self },
            TaskTimingAppendStage::DeviceDiagnostics => TaskTimingAppendStages { device_diagnostics: span, ..self },
            TaskTimingAppendStage::FactSync => TaskTimingAppendStages { fact_sync: span, ..self },
            TaskTimingAppendStage::Pipeline => TaskTimingAppendStages { pipeline: span, ..self },
        }
    }

    fn read(&self, key: TaskTimingAppendStage) -> (span: TaskTimingSpanSummary)
        ensures
            span == self.span(key),
    {
        match key {
            TaskTimingAppendStage::FactGate => self.fact_gate,
            TaskTimingAppendStage::Draft => self.draft,
            TaskTimingAppendStage::LedgerSend => self.ledger_send,
            TaskTimingAppendStage::LedgerQueue => self.ledger_queue,
            TaskTimingAppendStage::LedgerDurable => self.ledger_durable,
            TaskTimingAppendStage::LedgerPersistence => self.ledger_persistence,
            TaskTimingAppendStage::LedgerPublication => self.ledger_publication,
            TaskTimingAppendStage::WriterResponse => self.writer_response,
            TaskTimingAppendStage::DeviceDiagnostics => self.device_diagnostics,
            TaskTimingAppendStage::FactSync => self.fact_sync,
            TaskTimingAppendStage::Pipeline => self.pipeline,
        }
    }

    fn write(&mut self, key: TaskTimingAppendStage, span: TaskTimingSpanSummary)
        ensures
            *final(self) == old(self).with(key, span),
    {
        match key {
            TaskTimingAppendStage::FactGate => self.fact_gate = span,
            TaskTimingAppendStage::Draft => self.draft = span,
            TaskTimingAppendStage::LedgerSend => self.ledger_send = span,
            TaskTimingAppendStage::LedgerQueue => self.ledger_queue = span,
            TaskTimingAppendStage::LedgerDurable => self.ledger_durable = span,
            TaskTimingAppendStage::LedgerPersistence => self.ledger_persistence = span,
            TaskTimingAppendStage::LedgerPublication => self.ledger_publication = span,
            TaskTimingAppendStage::WriterResponse => self.writer_response = span,
            TaskTimingAppendStage::DeviceDiagnostics => self.device_diagnostics = span,
            TaskTimingAppendStage::FactSync => self.fact_sync = span,
            TaskTimingAppendStage::Pipeline => self.pipeline = span,
        }
    }

    pub open spec fn unobserved() -> Self {
        TaskTimingAppendStages {
            fact_gate: unobserved_span(),
            draft: unobserved_span(),
            ledger_send: unobserved_span(),
            ledger_queue: unobserved_span(),
            ledger_durable: unobserved_span(),
            ledger_persistence: unobserved_span(),
            ledger_publication: unobserved_span(),
            writer_response: unobserved_span(),
            device_diagnostics: unobserved_span(),
            fact_sync: unobserved_span(),
            pipeline: unobserved_span(),
            writer: None,
        }
    }

    fn new() -> (table: Self)
        ensures
            table == TaskTimingAppendStages::unobserved(),
    {
        TaskTimingAppendStages {
            fact_gate: TaskTimingSpanSummary::new(),
            draft: TaskTimingSpanSummary::new(),
            ledger_send: TaskTimingSpanSummary::new(),
            ledger_queue: TaskTimingSpanSummary::new(),
            ledger_durable: TaskTimingSpanSummary::new(),
            ledger_persistence: TaskTimingSpanSummary::new(),
            ledger_publication: TaskTimingSpanSummary::new(),
            writer_response: TaskTimingSpanSummary::new(),
            device_diagnostics: TaskTimingSpanSummary::new(),
            fact_sync: TaskTimingSpanSummary::new(),
            pipeline: TaskTimingSpanSummary::new(),
            writer: None,
        }
    }
}

#[derive(Debug, Clone, Copy, PartialEq, Eq, Structural)]
pub enum TaskTimingBoundary {
    Input,
    InputToEffectCompleted,
    EffectCompletedRecord,
    EffectCompletedToPostInputWait,
    PostInputWait,
    RecognitionPayloadAppend,
    RecognitionTaskAppend,
    EffectCompletedAppend,
}

/// The boundaries at which a task waits for the host.
#[derive(Debug, Clone, Copy)]
pub struct TaskTimingBoundarySpans {
    pub input: TaskTimingSpanSummary,
    pub input_to_effect_completed: TaskTimingSpanSummary,
    pub effect_completed_record: TaskTimingSpanSummary,
    pub effect_completed_to_post_input_wait: TaskTimingSpanSummary,
    pub post_input_wait: TaskTimingSpanSummary,
    pub recognition_payload_append: TaskTimingSpanSummary,
    pub recognition_task_append: TaskTimingSpanSummary,
    pub effect_completed_append: TaskTimingSpanSummary,
}

impl TaskTimingBoundarySpans {
    pub open spec fn span(self, key: TaskTimingBoundary) -> TaskTimingSpanSummary {
        match key {
            TaskTimingBoundary::Input => self.input,
            TaskTimingBoundary::InputToEffectCompleted => self.input_to_effect_completed,
            TaskTimingBoundary::EffectCompletedRecord => self.effect_completed_record,
            TaskTimingBoundary::EffectCompletedToPostInputWait => self.effect_completed_to_post_input_wait,
            TaskTimingBoundary::PostInputWait => self.post_input_wait,
            TaskTimingBoundary::RecognitionPayloadAppend => self.recognition_payload_append,
            TaskTimingBoundary::RecognitionTaskAppend => self.recognition_task_append,
            TaskTimingBoundary::EffectCompletedAppend => self.effect_completed_append,
        }
    }

    /// The same table with one span replaced.
    pub open spec fn with(self, key: TaskTimingBoundary, span: TaskTimingSpanSummary) -> Self {
        match key {
            TaskTimingBoundary::Input => TaskTimingBoundarySpans { input: span, ..self },
            TaskTimingBoundary::InputToEffectCompleted => TaskTimingBoundarySpans { input_to_effect_completed: span, ..self },
            TaskTimingBoundary::EffectCompletedRecord => TaskTimingBoundarySpans { effect_completed_record: span, ..self },
            TaskTimingBoundary::EffectCompletedToPostInputWait => TaskTimingBoundarySpans { effect_completed_to_post_input_wait: span, ..self },
            TaskTimingBoundary::PostInputWait => TaskTimingBoundarySpans { post_input_wait: span, ..self },
            TaskTimingBoundary::RecognitionPayloadAppend => TaskTimingBoundarySpans { recognition_payload_append: span, ..self },
            TaskTimingBoundary::RecognitionTaskAppend => TaskTimingBoundarySpans { recognition_task_append: span, ..self },
            TaskTimingBoundary::EffectCompletedAppend => TaskTimingBoundarySpans { effect_completed_append: span, ..self },
        }
    }

    fn read(&self, key: TaskTimingBoundary) -> (span: TaskTimingSpanSummary)
        ensures
            span == self.span(key),
    {
        match key {
            TaskTimingBoundary::Input => self.input,
            TaskTimingBoundary::InputToEffectCompleted => self.input_to_effect_completed,
            TaskTimingBoundary::EffectCompletedRecord => self.effect_completed_record,
            TaskTimingBoundary::EffectCompletedToPostInputWait => self.effect_completed_to_post_input_wait,
            TaskTimingBoundary::PostInputWait => self.post_input_wait,
            TaskTimingBoundary::RecognitionPayloadAppend => self.recognition_payload_append,
            TaskTimingBoundary::RecognitionTaskAppend => self.recognition_task_append,
            TaskTimingBoundary::EffectCompletedAppend => self.effect_completed_append,
        }
    }

    fn write(&mut self, key: TaskTimingBoundary, span: TaskTimingSpanSummary)
        ensures
            *final(self) == old(self).with(key, span),
    {
        match key {
            TaskTimingBoundary::Input => self.input = span,
            TaskTimingBoundary::InputToEffectCompleted => self.input_to_effect_completed = span,
            TaskTimingBoundary::EffectCompletedRecord => self.effect_completed_record = span,
            TaskTimingBoundary::EffectCompletedToPostInputWait => self.effect_completed_to_post_input_wait = span,
            TaskTimingBoundary::PostInputWait => self.post_input_wait = span,
            TaskTimingBoundary::RecognitionPayloadAppend => self.recognition_payload_append = span,
            TaskTimingBoundary::RecognitionTaskAppend => self.recognition_task_append = span,
            TaskTimingBoundary::EffectCompletedAppend => self.effect_completed_append = span,
        }
    }

    pub open spec fn unobserved() -> Self {
        TaskTimingBoundarySpans {
            input: unobserved_span(),
            input_to_effect_completed: unobserved_span(),
            effect_completed_record: unobserved_span(),
            effect_completed_to_post_input_wait: unobserved_span(),
            post_input_wait: unobserved_span(),
            recognition_payload_append: unobserved_span(),
            recognition_task_append: unobserved_span(),
            effect_completed_append: unobserved_span(),
        }
    }

    fn new() -> (table: Self)
        ensures
            table == TaskTimingBoundarySpans::unobserved(),
    {
        TaskTimingBoundarySpans {
            input: TaskTimingSpanSummary::new(),
            input_to_effect_completed: TaskTimingSpanSummary::new(),
            effect_completed_record: TaskTimingSpanSummary::new(),
            effect_completed_to_post_input_wait: TaskTimingSpanSummary::new(),
            post_input_wait: TaskTimingSpanSummary::new(),
            recognition_payload_append: TaskTimingSpanSummary::new(),
            recognition_task_append: TaskTimingSpanSummary::new(),
            effect_completed_append: TaskTimingSpanSummary::new(),
        }
    }
}

/// The event that an append writes.
#[derive(Debug, Clone, Copy, PartialEq, Eq, Structural)]
pub enum TaskAppend {
    RecognitionPayload,
    RecognitionTask,
    EffectCompleted,
}

/// The boundary that an append is.
pub open spec fn append_boundary(kind: TaskAppend) -> TaskTimingBoundary {
    match kind {
        TaskAppend::RecognitionPayload => TaskTimingBoundary::RecognitionPayloadAppend,
        TaskAppend::RecognitionTask => TaskTimingBoundary::RecognitionTaskAppend,
        TaskAppend::EffectCompleted => TaskTimingBoundary::EffectCompletedAppend,
    }
}

/// All boundary observations of a phase.
#[derive(Debug, Clone, Copy)]
pub struct TaskTimingBoundaries {
    pub spans: TaskTimingBoundarySpans,
    pub recognition_payload_stages: TaskTimingAppendStages,
    pub recognition_task_stages: TaskTimingAppendStages,
    pub effect_completed_stages: TaskTimingAppendStages,
}

impl TaskTimingBoundaries {
    pub open spec fn unobserved() -> Self {
        TaskTimingBoundaries {
            spans: TaskTimingBoundarySpans::unobserved(),
            recognition_payload_stages: TaskTimingAppendStages::unobserved(),
            recognition_task_stages: TaskTimingAppendStages::unobserved(),
            effect_completed_stages: TaskTimingAppendStages::unobserved(),
        }
    }

    pub open spec fn stages(self, kind: TaskAppend) -> TaskTimingAppendStages {
        match kind {
            TaskAppend::RecognitionPayload => self.recognition_payload_stages,
            TaskAppend::RecognitionTask => self.recognition_task_stages,
            TaskAppend::EffectCompleted => self.effect_completed_stages,
        }
    }

    /// The same observations with the stages of one append replaced.
    pub open spec fn with_stages(self, kind: TaskAppend, stages: TaskTimingAppendStages) -> Self {
        match kind {
            TaskAppend::RecognitionPayload => TaskTimingBoundaries {
                recognition_payload_stages: stages,
                ..self
            },
            TaskAppend::RecognitionTask => TaskTimingBoundaries {
                recognition_task_stages: stages,
                ..self
            },
            TaskAppend::EffectCompleted => TaskTimingBoundaries {
                effect_completed_stages: stages,
                ..self
            },
        }
    }

    /// The summary of a boundary, or of one stage of an append.
    pub open spec fn summary(
        self,
        boundary: TaskTimingBoundary,
        stage: Option<(TaskTimingAppendStage, TaskAppend)>,
    ) -> TaskTimingSpanSummary {
        match stage {
            None => self.spans.span(boundary),
            Some((stage, kind)) => self.stages(kind).span(stage),
        }
    }

    /// The same observations with one summary replaced.
    pub open spec fn with_summary(
        self,
        boundary: TaskTimingBoundary,
        stage: Option<(TaskTimingAppendStage, TaskAppend)>,
        summary: TaskTimingSpanSummary,
    ) -> Self {
        match stage {
            None => TaskTimingBoundaries { spans: self.spans.with(boundary, summary), ..self },
            Some((stage, kind)) => self.with_stages(kind, self.stages(kind).with(stage, summary)),
        }
    }

    fn new() -> (boundaries: Self)
        ensures
            boundaries == TaskTimingBoundaries::unobserved(),
    {
        TaskTimingBoundaries {
            spans: TaskTimingBoundarySpans::new(),
            recognition_payload_stages: TaskTimingAppendStages::new(),
            recognition_task_stages: TaskTimingAppendStages::new(),
            effect_completed_stages: TaskTimingAppendStages::new(),
        }
    }

    fn read_stages(&self, kind: TaskAppend) -> (stages: TaskTimingAppendStages)
        ensures
            stages == self.stages(kind),
    {
        match kind {
            TaskAppend::RecognitionPayload => self.recognition_payload_stages,
            TaskAppend::RecognitionTask => self.recognition_task_stages,
            TaskAppend::EffectCompleted => self.effect_completed_stages,
        }
    }

    fn write_stages(&mut self, kind: TaskAppend, stages: TaskTimingAppendStages)
        ensures
            *final(self) == old(self).with_stages(kind, stages),
    {
        match kind {
            TaskAppend::RecognitionPayload => self.recognition_payload_stages = stages,
            TaskAppend::RecognitionTask => self.recognition_task_stages = stages,
            TaskAppend::EffectCompleted => self.effect_completed_stages = stages,
        }
    }

    fn read_summary(
        &self,
        boundary: TaskTimingBoundary,
        stage: Option<(TaskTimingAppendStage, TaskAppend)>,
    ) -> (summary: TaskTimingSpanSummary)
        ensures
            summary == self.summary(boundary, stage),
    {
        match stage {
            None => self.spans.read(boundary),
            Some((stage, kind)) => self.read_stages(kind).read(stage),
        }
    }

    fn write_summary(
        &mut self,
        boundary: TaskTimingBoundary,
        stage: Option<(TaskTimingAppendStage, TaskAppend)>,
        summary: TaskTimingSpanSummary,
    )
        ensures
            *final(self) == old(self).with_summary(boundary, stage, summary),
    {
        match stage {
            None => self.spans.write(boundary, summary),
            Some((stage, kind)) => {
                let mut stages = self.read_stages(kind);
                stages.write(stage, summary);
                self.write_stages(kind, stages);
            },
        }
    }
}

#[derive(Debug, Clone, Copy, PartialEq, Eq, Structural)]
pub enum TaskTimingPhase {
    Preflight,
    Execution,
    Finalization,
}

/// What was observed in one phase of a task.
#[derive(Debug, Clone, Copy)]
pub struct TaskTimingPhaseObservations {
    pub recognition_evaluate: TaskTimingSpanSummary,
    pub diagnostic_record_write: TaskTimingSpanSummary,
    pub capture_recognition: TaskTimingSpanSummary,
    pub recognition_completed_record: TaskTimingSpanSummary,
    pub boundaries: Option<TaskTimingBoundaries>,
}

impl TaskTimingPhaseObservations {
    pub open spec fn unobserved() -> Self {
        TaskTimingPhaseObservations {
            recognition_evaluate: unobserved_span(),
            diagnostic_record_write: unobserved_span(),
            capture_recognition: unobserved_span(),
            recognition_completed_record: unobserved_span(),
            boundaries: None,
        }
    }

    fn new() -> (observations: Self)
        ensures
            observations == TaskTimingPhaseObservations::unobserved(),
    {
        TaskTimingPhaseObservations {
            recognition_evaluate: TaskTimingSpanSummary::new(),
            diagnostic_record_write: TaskTimingSpanSummary::new(),
            capture_recognition: TaskTimingSpanSummary::new(),
            recognition_completed_record: TaskTimingSpanSummary::new(),
            boundaries: None,
        }
    }

    /// The boundaries, unobserved so far if there are none.
    pub open spec fn known_boundaries(self) -> TaskTimingBoundaries {
        match self.boundaries {
            Some(boundaries) => boundaries,
            None => TaskTimingBoundaries::unobserved(),
        }
    }

    fn read_boundaries(&self) -> (boundaries: TaskTimingBoundaries)
        ensures
            boundaries == self.known_boundaries(),
    {
        match self.boundaries {
            Some(boundaries) => boundaries,
            None => TaskTimingBoundaries::new(),
        }
    }
}

/// The call during which the task's budget was first seen to run out.
#[derive(Debug, Clone, Copy)]
pub struct TaskTimingObservedExpiry {
    pub phase: TaskTimingPhase,
    pub boundary: TaskTimingBoundary,
    pub append_stage: Option<TaskTimingAppendStage>,
    pub sample: TaskTimingSample,
    pub context: TaskTimingCallContext,
}

/// The step and the objects that a call is about.
#[derive(Debug, Clone, Copy, PartialEq, Eq, Structural)]
pub struct BoundaryIdentity {
    pub step_index: Option<u32>,
    pub action_id: Option<u128>,
    pub frame_id: Option<u128>,
    pub recognition_id: Option<u128>,
}

/// The start of a call at a boundary.
#[derive(Debug, Clone, Copy, PartialEq, Eq, Structural)]
pub struct BoundaryStart {
    pub boundary: TaskTimingBoundary,
    pub phase: TaskTimingPhase,
    pub context: Option<TaskTimingContext>,
    pub identity: BoundaryIdentity,
    pub started: u64,
}

/// Endpoints of a call. Only the call's own result completes it.
#[derive(Debug, Clone, Copy, PartialEq, Eq, Structural)]
pub struct AppendCallSpan {
    pub present: bool,
    pub started: Option<u64>,
    pub ended: Option<u64>,
    pub result: Option<TaskTimingResult>,
}

/// The span of a call that ended.
pub open spec fn ended_span(started: u64, ended: u64, succeeded: bool) -> AppendCallSpan {
    AppendCallSpan {
        present: true,
        started: Some(started),
        ended: Some(ended),
        result: Some(result_of(succeeded)),
    }
}

/// The span of a call whose end nobody saw.
pub open spec fn open_span(started: u64) -> AppendCallSpan {
    AppendCallSpan { present: true, started: Some(started), ended: None, result: None }
}

impl AppendCallSpan {
    pub fn absent() -> (span: Self)
        ensures
            span == (AppendCallSpan { present: false, started: None, ended: None, result: None }),
    {
        AppendCallSpan { present: false, started: None, ended: None, result: None }
    }

    pub fn begin(&mut self, now: u64)
        ensures
            *final(self) == (AppendCallSpan { present: true, started: Some(now), ..*old(self) }),
    {
        self.present = true;
        self.started = Some(now);
    }

    pub fn finish(&mut self, now: u64, succeeded: bool)
        ensures
            *final(self) == (AppendCallSpan {
                present: true,
                ended: Some(now),
                result: Some(result_of(succeeded)),
                ..*old(self)
            }),
    {
        self.present = true;
        self.ended = Some(now);
        self.result = Some(
            if succeeded {
                TaskTimingResult::Succeeded
            } else {
                TaskTimingResult::Failed
            },
        );
    }

    fn ended(started: u64, ended: u64, succeeded: bool) -> (span: Self)
        ensures
            span == ended_span(started, ended, succeeded),
    {
        let mut span = AppendCallSpan::absent();
        span.begin(started);
        span.finish(ended, succeeded);
        span
    }

    fn open(started: u64) -> (span: Self)
        ensures
            span == open_span(started),
    {
        let mut span = AppendCallSpan::absent();
        span.begin(started);
        span
    }
}

/// The sample that a span gives.
pub open spec fn span_sample(start: BoundaryStart, span: AppendCallSpan) -> TaskTimingSample {
    TaskTimingSample {
        elapsed_us: match (span.started, span.ended) {
            (Some(started), Some(ended)) => span_between(started, ended),
            _ => ObservedMicroseconds::Unavailable {
                reason: TimingObservationIssue::CallIncomplete,
            },
        },
        budget_before: budget_seen(start.context, span.started),
        result: match span.result {
            Some(result) => result,
            None => TaskTimingResult::Unobserved,
        },
        record_index: None,
        frame_id: start.identity.frame_id,
        recognition_id: start.identity.recognition_id,
    }
}

pub open spec fn span_context(start: BoundaryStart, span: AppendCallSpan) -> TaskTimingCallContext {
    TaskTimingCallContext {
        budget_after: budget_seen(start.context, span.ended),
        step_index: start.identity.step_index,
        action_id: start.identity.action_id,
    }
}

/// A summary after one more span. A span without its end leaves the number of
/// errors unknown, one without its start the number of attempts.
pub open spec fn span_observed(
    summary: TaskTimingSpanSummary,
    start: BoundaryStart,
    span: AppendCallSpan,
) -> TaskTimingSpanSummary {
    let base = observed(summary, span_sample(start, span));
    let context = span_context(start, span);
    let missing = span.result is None || span.started is None;
    let status = if missing {
        marked_incomplete(base.status, TimingObservationIssue::CallIncomplete)
    } else {
        base.status
    };
    TaskTimingSpanSummary {
        last_call: Some(context),
        errors: if span.result is None {
            None
        } else {
            base.errors
        },
        attempts: if span.started is None {
            None
        } else {
            base.attempts
        },
        status: match context.budget_after {
            TaskTimingBudgetObservation::Unavailable { reason } => marked_incomplete(
                status,
                reason,
            ),
            _ => status,
        },
        ..base
    }
}

/// The task's budget ran out during a call that was observed from its start to
/// its end.
pub open spec fn shows_expiry(
    summary: TaskTimingSpanSummary,
    sample: TaskTimingSample,
    context: TaskTimingCallContext,
) -> bool {
    &&& summary.status is Observed
    &&& sample.budget_before matches TaskTimingBudgetObservation::Observed {
        origin: TaskTimingBudgetOrigin::Task,
        expired: false,
        ..
    }
    &&& context.budget_after matches TaskTimingBudgetObservation::Observed {
        origin: TaskTimingBudgetOrigin::Task,
        expired: true,
        remaining_us: 0,
    }
}

/// What was timed of a failed task, by the number under which its keeper finds
/// it.
#[derive(Debug, Clone, Copy, PartialEq, Eq, Structural)]
pub struct TaskTimingFailure {
    pub number: u64,
}

/// Where a task checked its budget, by the number of the check.
#[derive(Debug, Clone, Copy, PartialEq, Eq, Structural)]
pub struct TaskTimingCheckPosition {
    pub number: u64,
}

/// The failure of a task: when and under whose budget it came.
#[derive(Debug, Clone, Copy, PartialEq, Eq, Structural)]
pub struct TaskTimingFailureObservation {
    pub phase: TaskTimingPhase,
    pub origin: Option<TaskTimingBudgetOrigin>,
    pub timing: TaskTimingFailure,
    pub check_position: Option<TaskTimingCheckPosition>,
}

/// The timing of a task, by phase.
#[derive(Debug, Clone, Copy)]
pub struct TaskTimingObserver {
    pub preflight: TaskTimingPhaseObservations,
    pub execution: TaskTimingPhaseObservations,
    pub finalization: TaskTimingPhaseObservations,
    pub first_observed_expiry: Option<TaskTimingObservedExpiry>,
    pub task_failure: Option<TaskTimingFailureObservation>,
    pub phase: TaskTimingPhase,
    pub context: Option<TaskTimingContext>,
    pub input_completion: Option<BoundaryStart>,
    pub effect_completion: Option<BoundaryStart>,
}

impl TaskTimingObserver {
    pub open spec fn observations(self, phase: TaskTimingPhase) -> TaskTimingPhaseObservations {
        match phase {
            TaskTimingPhase::Preflight => self.preflight,
            TaskTimingPhase::Execution => self.execution,
            TaskTimingPhase::Finalization => self.finalization,
        }
    }

    /// The same observer with the observations of one phase replaced.
    pub open spec fn with_observations(
        self,
        phase: TaskTimingPhase,
        observations: TaskTimingPhaseObservations,
    ) -> Self {
        match phase {
            TaskTimingPhase::Preflight => TaskTimingObserver { preflight: observations, ..self },
            TaskTimingPhase::Execution => TaskTimingObserver { execution: observations, ..self },
            TaskTimingPhase::Finalization => TaskTimingObserver {
                finalization: observations,
                ..self
            },
        }
    }

    /// The observer after one more span at a boundary or a stage of it.
    pub open spec fn with_span(
        self,
        start: BoundaryStart,
        stage: Option<(TaskTimingAppendStage, TaskAppend)>,
        span: AppendCallSpan,
    ) -> Self {
        if !span.present {
            self
        } else {
            let observations = self.observations(start.phase);
            let boundaries = observations.known_boundaries();
            let summary = span_observed(
                boundaries.summary(start.boundary, stage),
                start,
                span,
            );
            let sample = span_sample(start, span);
            let context = span_context(start, span);
            let counted = self.with_observations(
                start.phase,
                TaskTimingPhaseObservations {
                    boundaries: Some(boundaries.with_summary(start.boundary, stage, summary)),
                    ..observations
                },
            );
            TaskTimingObserver {
                first_observed_expiry: if self.first_observed_expiry is None && shows_expiry(
                    summary,
                    sample,
                    context,
                ) {
                    Some(
                        TaskTimingObservedExpiry {
                            phase: start.phase,
                            boundary: start.boundary,
                            append_stage: match stage {
                                Some((stage, _)) => Some(stage),
                                None => None,
                            },
                            sample,
                            context,
                        },
                    )
                } else {
                    self.first_observed_expiry
                },
                ..counted
            }
        }
    }

    /// The observer once every bridge that waits for its end is given up.
    pub open spec fn without_bridges(self) -> Self {
        let first = match self.input_completion {
            Some(start) => (TaskTimingObserver { input_completion: None, effect_completion: None, ..self }).with_span(
                start,
                None,
                open_span(start.started),
            ),
            None => TaskTimingObserver { input_completion: None, effect_completion: None, ..self },
        };
        match self.effect_completion {
            Some(start) => first.with_span(start, None, open_span(start.started)),
            None => first,
        }
    }

    pub fn new() -> (observer: Self)
        ensures
            observer == (TaskTimingObserver {
                preflight: TaskTimingPhaseObservations::unobserved(),
                execution: TaskTimingPhaseObservations::unobserved(),
                finalization: TaskTimingPhaseObservations::unobserved(),
                first_observed_expiry: None,
                task_failure: None,
                phase: TaskTimingPhase::Preflight,
                context: None,
                input_completion: None,
                effect_completion: None,
            }),
    {
        TaskTimingObserver {
            preflight: TaskTimingPhaseObservations::new(),
            execution: TaskTimingPhaseObservations::new(),
            finalization: TaskTimingPhaseObservations::new(),
            first_observed_expiry: None,
            task_failure: None,
            phase: TaskTimingPhase::Preflight,
            context: None,
            input_completion: None,
            effect_completion: None,
        }
    }

    fn read_observations(&self, phase: TaskTimingPhase) -> (observations:
        TaskTimingPhaseObservations)
        ensures
            observations == self.observations(phase),
    {
        match phase {
            TaskTimingPhase::Preflight => self.preflight,
            TaskTimingPhase::Execution => self.execution,
            TaskTimingPhase::Finalization => self.finalization,
        }
    }

    fn write_observations(
        &mut self,
        phase: TaskTimingPhase,
        observations: TaskTimingPhaseObservations,
    )
        ensures
            *final(self) == old(self).with_observations(phase, observations),
    {
        match phase {
            TaskTimingPhase::Preflight => self.preflight = observations,
            TaskTimingPhase::Execution => self.execution = observations,
            TaskTimingPhase::Finalization => self.finalization = observations,
        }
    }

    /// Adds a span. What was not present adds nothing.
    pub fn boundary_span(
        &mut self,
        start: BoundaryStart,
        stage: Option<(TaskTimingAppendStage, TaskAppend)>,
        span: AppendCallSpan,
    )
        ensures
            *final(self) == old(self).with_span(start, stage, span),
    {
        if !span.present {
            return;
        }
        let elapsed_us = match (span.started, span.ended) {
            (Some(started), Some(ended)) => observe_instant_span(started, ended),
            _ => ObservedMicroseconds::Unavailable {
                reason: TimingObservationIssue::CallIncomplete,
            },
        };
        let sample = TaskTimingSample {
            elapsed_us,
            budget_before: budget(start.context, span.started),
            result: match span.result {
                Some(result) => result,
                None => TaskTimingResult::Unobserved,
            },
            record_index: None,
            frame_id: start.identity.frame_id,
            recognition_id: start.identity.recognition_id,
        };
        let context = TaskTimingCallContext {
            budget_after: budget(start.context, span.ended),
            step_index: start.identity.step_index,
            action_id: start.identity.action_id,
        };
        let mut observations = self.read_observations(start.phase);
        let mut boundaries = observations.read_boundaries();
        let mut summary = boundaries.read_summary(start.boundary, stage);
        summary.observe(sample);
        summary.last_call = Some(context);
        if span.result.is_none() {
            summary.errors = None;
            summary.incomplete(TimingObservationIssue::CallIncomplete);
        }
        if span.started.is_none() {
            summary.attempts = None;
            summary.incomplete(TimingObservationIssue::CallIncomplete);
        }
        if let TaskTimingBudgetObservation::Unavailable { reason } = context.budget_after {
            summary.incomplete(reason);
        }
        boundaries.write_summary(start.boundary, stage, summary);
        observations.boundaries = Some(boundaries);
        self.write_observations(start.phase, observations);
        let complete = summary.status == TaskTimingObservationState::Observed;
        let started_in_time = match sample.budget_before {
            TaskTimingBudgetObservation::Observed { origin, expired, .. } => origin
                == TaskTimingBudgetOrigin::Task && !expired,
            _ => false,
        };
        let ended_late = match context.budget_after {
            TaskTimingBudgetObservation::Observed { origin, expired, remaining_us } => origin
                == TaskTimingBudgetOrigin::Task && expired && remaining_us == 0,
            _ => false,
        };
        if complete && self.first_observed_expiry.is_none() && started_in_time && ended_late {
            self.first_observed_expiry = Some(
                TaskTimingObservedExpiry {
                    phase: start.phase,
                    boundary: start.boundary,
                    append_stage: match stage {
                        Some((stage, _)) => Some(stage),
                        None => None,
                    },
                    sample,
                    context,
                },
            );
        }
    }

    fn incomplete_effect_bridges(&mut self)
        ensures
            *final(self) == old(self).without_bridges(),
    {
        let input = self.input_completion;
        let effect = self.effect_completion;
        self.input_completion = None;
        self.effect_completion = None;
        if let Some(start) = input {
            self.boundary_span(start, None, AppendCallSpan::open(start.started));
        }
        if let Some(start) = effect {
            self.boundary_span(start, None, AppendCallSpan::open(start.started));
        }
    }

    pub fn begin_execution(&mut self, context: TaskTimingContext)
        ensures
            *final(self) == (TaskTimingObserver {
                context: Some(context),
                phase: TaskTimingPhase::Execution,
                ..old(self).without_bridges()
            }),
    {
        self.incomplete_effect_bridges();
        self.context = Some(context);
        self.phase = TaskTimingPhase::Execution;
    }

    pub fn replace_context(&mut self, context: Option<TaskTimingContext>)
        ensures
            *final(self) == (TaskTimingObserver { context, ..old(self).without_bridges() }),
    {
        self.incomplete_effect_bridges();
        self.context = context;
    }

    pub fn begin_finalization(&mut self)
        ensures
            *final(self) == (TaskTimingObserver {
                phase: TaskTimingPhase::Finalization,
                ..old(self).without_bridges()
            }),
    {
        self.incomplete_effect_bridges();
        self.phase = TaskTimingPhase::Finalization;
    }

    /// The observations as they stand, open bridges given up.
    pub fn snapshot(&self) -> (snapshot: Self)
        ensures
            snapshot == self.without_bridges(),
    {
        let mut snapshot = *self;
        snapshot.incomplete_effect_bridges();
        snapshot
    }

    pub fn budget_at(&self, observed: u64) -> (seen: TaskTimingBudgetObservation)
        ensures
            seen == budget_seen(self.context, Some(observed)),
    {
        budget(self.context, Some(observed))
    }

    /// Notes how a task failed, if that was timed. The last failure stays.
    pub fn task_failure(
        &mut self,
        timing: Option<TaskTimingFailure>,
        check_position: Option<TaskTimingCheckPosition>,
    )
        ensures
            *final(self) == match timing {
                Some(timing) => TaskTimingObserver {
                    task_failure: Some(
                        TaskTimingFailureObservation {
                            phase: old(self).phase,
                            origin: match old(self).context {
                                Some(context) => Some(context.origin),
                                None => None,
                            },
                            timing,
                            check_position,
                        },
                    ),
                    ..*old(self)
                },
                None => *old(self),
            },
    {
        if let Some(timing) = timing {
            let origin = match self.context {
                Some(context) => Some(context.origin),
                None => None,
            };
            self.task_failure = Some(
                TaskTimingFailureObservation { phase: self.phase, origin, timing, check_position },
            );
        }
    }

    /// Adds an evaluation to the current phase.
    pub fn record_evaluation(&mut self, sample: TaskTimingSample)
        ensures
            *final(self) == old(self).with_observations(
                old(self).phase,
                TaskTimingPhaseObservations {
                    recognition_evaluate: observed(
                        old(self).observations(old(self).phase).recognition_evaluate,
                        sample,
                    ),
                    ..old(self).observations(old(self).phase)
                },
            ),
    {
        let phase = self.phase;
        let mut observations = self.read_observations(phase);
        observations.recognition_evaluate.observe(sample);
        self.write_observations(phase, observations);
    }

    /// Adds the write of a diagnostic record to the current phase, and says
    /// with which phase the parts of the write are to be counted.
    pub fn record_write(&mut self, sample: TaskTimingSample) -> (counted_with: TaskTimingPhase)
        ensures
            counted_with == old(self).phase,
            *final(self) == old(self).with_observations(
                old(self).phase,
                TaskTimingPhaseObservations {
                    diagnostic_record_write: observed(
                        old(self).observations(old(self).phase).diagnostic_record_write,
                        sample,
                    ),
                    ..old(self).observations(old(self).phase)
                },
            ),
    {
        let phase = self.phase;
        let mut observations = self.read_observations(phase);
        observations.diagnostic_record_write.observe(sample);
        self.write_observations(phase, observations);
        phase
    }

    /// Adds a capture for recognition to the current phase.
    pub fn capture_recognition(&mut self, sample: TaskTimingSample)
        ensures
            *final(self) == old(self).with_observations(
                old(self).phase,
                TaskTimingPhaseObservations {
                    capture_recognition: observed(
                        old(self).observations(old(self).phase).capture_recognition,
                        sample,
                    ),
                    ..old(self).observations(old(self).phase)
                },
            ),
    {
        let phase = self.phase;
        let mut observations = self.read_observations(phase);
        observations.capture_recognition.observe(sample);
        self.write_observations(phase, observations);
    }

    /// Adds the record of a completed recognition to the current phase.
    pub fn recognition_completed_record(&mut self, sample: TaskTimingSample)
        ensures
            *final(self) == old(self).with_observations(
                old(self).phase,
                TaskTimingPhaseObservations {
                    recognition_completed_record: observed(
                        old(self).observations(old(self).phase).recognition_completed_record,
                        sample,
                    ),
                    ..old(self).observations(old(self).phase)
                },
            ),
    {
        let phase = self.phase;
        let mut observations = self.read_observations(phase);
        observations.recognition_completed_record.observe(sample);
        self.write_observations(phase, observations);
    }

    /// The start of a call at a boundary, now.
    pub open spec fn start_at(
        self,
        boundary: TaskTimingBoundary,
        identity: BoundaryIdentity,
        now: u64,
    ) -> BoundaryStart {
        BoundaryStart {
            boundary,
            phase: self.phase,
            context: self.context,
            identity,
            started: now,
        }
    }

    pub fn begin_boundary(
        &self,
        boundary: TaskTimingBoundary,
        identity: BoundaryIdentity,
        now: u64,
    ) -> (start: BoundaryStart)
        ensures
            start == self.start_at(boundary, identity, now),
    {
        BoundaryStart {
            boundary,
            phase: self.phase,
            context: self.context,
            identity,
            started: now,
        }
    }

    pub fn begin_append(&self, kind: TaskAppend, identity: BoundaryIdentity, now: u64) -> (start:
        AppendStart)
        ensures
            start == (AppendStart {
                start: self.start_at(append_boundary(kind), identity, now),
                kind,
            }),
    {
        let boundary = match kind {
            TaskAppend::RecognitionPayload => TaskTimingBoundary::RecognitionPayloadAppend,
            TaskAppend::RecognitionTask => TaskTimingBoundary::RecognitionTaskAppend,
            TaskAppend::EffectCompleted => TaskTimingBoundary::EffectCompletedAppend,
        };
        AppendStart { start: self.begin_boundary(boundary, identity, now), kind }
    }

    /// Ends a call at a boundary. An input that succeeded opens the bridge to
    /// the record of its effect.
    pub fn finish_boundary(&mut self, start: BoundaryStart, ended: u64, succeeded: bool) -> (span:
        ObservedMicroseconds)
        ensures
            span == span_between(start.started, ended),
            ({
                let is_input = start.boundary == TaskTimingBoundary::Input;
                let before = if is_input {
                    old(self).without_bridges()
                } else {
                    *old(self)
                };
                let counted = before.with_span(
                    start,
                    None,
                    ended_span(start.started, ended, succeeded),
                );
                *final(self) == if is_input && succeeded {
                    TaskTimingObserver {
                        input_completion: Some(
                            BoundaryStart {
                                boundary: TaskTimingBoundary::InputToEffectCompleted,
                                started: ended,
                                ..start
                            },
                        ),
                        ..counted
                    }
                } else {
                    counted
                }
            }),
    {
        if start.boundary == TaskTimingBoundary::Input {
            self.incomplete_effect_bridges();
        }
        self.boundary_span(start, None, AppendCallSpan::ended(start.started, ended, succeeded));
        if start.boundary == TaskTimingBoundary::Input && succeeded {
            self.input_completion = Some(
                BoundaryStart {
                    boundary: TaskTimingBoundary::InputToEffectCompleted,
                    phase: start.phase,
                    context: start.context,
                    identity: start.identity,
                    started: ended,
                },
            );
        }
        observe_instant_span(start.started, ended)
    }

    /// A bridge ends only at a call of the same step and action, in the same
    /// phase and under the same deadline.
    pub open spec fn bridge_span(
        self,
        start: BoundaryStart,
        timing: KernelBoundaryTiming,
        ended: u64,
        succeeded: bool,
    ) -> AppendCallSpan {
        if start.phase == self.phase && start.context == Some(timing.context)
            && start.identity.step_index is Some && start.identity.action_id is Some
            && start.identity == timing.identity {
            ended_span(start.started, ended, succeeded)
        } else {
            open_span(start.started)
        }
    }

    fn complete_effect_bridge(
        &mut self,
        start: BoundaryStart,
        timing: &KernelBoundaryTiming,
        ended: u64,
        succeeded: bool,
    )
        ensures
            *final(self) == old(self).with_span(
                start,
                None,
                old(self).bridge_span(start, *timing, ended, succeeded),
            ),
    {
        let same_context = match start.context {
            Some(context) => context == timing.context,
            None => false,
        };
        let same_call = start.phase == self.phase && same_context
            && start.identity.step_index.is_some() && start.identity.action_id.is_some()
            && start.identity == timing.identity;
        let span = if same_call {
            AppendCallSpan::ended(start.started, ended, succeeded)
        } else {
            AppendCallSpan::open(start.started)
        };
        self.boundary_span(start, None, span);
    }

    /// The observer after a boundary that the kernel timed.
    pub open spec fn with_kernel_boundary(self, timing: KernelBoundaryTiming) -> Self {
        let start = BoundaryStart {
            boundary: timing.boundary,
            phase: self.phase,
            context: Some(timing.context),
            identity: timing.identity,
            started: timing.started,
        };
        let counted = self.with_span(
            start,
            None,
            ended_span(timing.started, timing.ended, timing.succeeded),
        );
        match timing.boundary {
            TaskTimingBoundary::EffectCompletedRecord => {
                let bridged = match counted.input_completion {
                    Some(bridge) => {
                        let taken = TaskTimingObserver { input_completion: None, ..counted };
                        taken.with_span(
                            bridge,
                            None,
                            taken.bridge_span(bridge, timing, timing.ended, timing.succeeded),
                        )
                    },
                    None => counted,
                };
                let closed = bridged.without_bridges();
                if timing.succeeded {
                    TaskTimingObserver {
                        effect_completion: Some(
                            BoundaryStart {
                                boundary: TaskTimingBoundary::EffectCompletedToPostInputWait,
                                started: timing.ended,
                                ..start
                            },
                        ),
                        ..closed
                    }
                } else {
                    closed
                }
            },
            TaskTimingBoundary::PostInputWait => match counted.effect_completion {
                Some(bridge) => {
                    let taken = TaskTimingObserver { effect_completion: None, ..counted };
                    taken.with_span(
                        bridge,
                        None,
                        taken.bridge_span(bridge, timing, timing.started, true),
                    )
                },
                None => counted,
            },
            _ => counted,
        }
    }

    /// Adds a boundary that the kernel timed, and ends or opens the bridges
    /// between an input, the record of its effect and the wait after it.
    pub fn kernel_boundary(&mut self, timing: KernelBoundaryTiming)
        ensures
            *final(self) == old(self).with_kernel_boundary(timing),
    {
        let phase = self.phase;
        let start = BoundaryStart {
            boundary: timing.boundary,
            phase,
            context: Some(timing.context),
            identity: timing.identity,
            started: timing.started,
        };
        self.boundary_span(
            start,
            None,
            AppendCallSpan::ended(timing.started, timing.ended, timing.succeeded),
        );
        match timing.boundary {
            TaskTimingBoundary::EffectCompletedRecord => {
                if let Some(bridge) = self.input_completion {
                    self.input_completion = None;
                    self.complete_effect_bridge(bridge, &timing, timing.ended, timing.succeeded);
                }
                self.incomplete_effect_bridges();
                if timing.succeeded {
                    self.effect_completion = Some(
                        BoundaryStart {
                            boundary: TaskTimingBoundary::EffectCompletedToPostInputWait,
                            phase,
                            context: Some(timing.context),
                            identity: timing.identity,
                            started: timing.ended,
                        },
                    );
                }
            },
            TaskTimingBoundary::PostInputWait => {
                if let Some(bridge) = self.effect_completion {
                    self.effect_completion = None;
                    self.complete_effect_bridge(bridge, &timing, timing.started, true);
                }
            },
            _ => {},
        }
    }

    /// The observer after the writer's answer to an append replaced the one
    /// before it.
    pub open spec fn with_writer(
        self,
        append: AppendStart,
        writer: Option<WriterObservation>,
    ) -> Self {
        let observations = self.observations(append.start.phase);
        let boundaries = observations.known_boundaries();
        self.with_observations(
            append.start.phase,
            TaskTimingPhaseObservations {
                boundaries: Some(
                    boundaries.with_stages(
                        append.kind,
                        TaskTimingAppendStages { writer, ..boundaries.stages(append.kind) },
                    ),
                ),
                ..observations
            },
        )
    }

    pub open spec fn with_stage(
        self,
        append: AppendStart,
        stage: TaskTimingAppendStage,
        span: AppendCallSpan,
    ) -> Self {
        self.with_span(append.start, Some((stage, append.kind)), span)
    }

    /// The observer after the ledger's part of an append.
    pub open spec fn with_ledger(self, append: AppendStart, ledger: LedgerAppendObservation) -> Self {
        let sent = self.with_stage(
            append,
            TaskTimingAppendStage::LedgerSend,
            ledger_call(ledger.send),
        ).with_stage(append, TaskTimingAppendStage::LedgerQueue, ledger_call(ledger.queue));
        let durable = match ledger.durable_started_at {
            Some(started) => sent.with_stage(
                append,
                TaskTimingAppendStage::LedgerDurable,
                ledger_call(
                    LedgerAppendSpan { started_at: Some(started), ..ledger.persistence },
                ),
            ),
            None => sent,
        };
        durable.with_stage(
            append,
            TaskTimingAppendStage::LedgerPersistence,
            ledger_call(ledger.persistence),
        ).with_stage(
            append,
            TaskTimingAppendStage::LedgerPublication,
            ledger_call(ledger.publication),
        )
    }

    /// The observer after an append.
    pub open spec fn with_append(
        self,
        append: AppendStart,
        ended: u64,
        succeeded: bool,
        observation: AppendObservation,
    ) -> Self {
        let drafted = self.with_stage(
            append,
            TaskTimingAppendStage::FactGate,
            observation.fact_gate,
        ).with_stage(append, TaskTimingAppendStage::Draft, observation.draft);
        let written = match observation.ledger {
            Some(ledger) => drafted.with_ledger(append, ledger).with_writer(
                append,
                Some(writer_seen(ledger)),
            ),
            None => drafted.with_writer(append, None),
        };
        written.with_stage(
            append,
            TaskTimingAppendStage::WriterResponse,
            observation.writer_response,
        ).with_stage(
            append,
            TaskTimingAppendStage::DeviceDiagnostics,
            observation.device_diagnostics,
        ).with_stage(append, TaskTimingAppendStage::FactSync, observation.fact_sync).with_stage(
            append,
            TaskTimingAppendStage::Pipeline,
            observation.pipeline,
        ).with_span(append.start, None, ended_span(append.start.started, ended, succeeded))
    }

    /// Ends an append with what was observed of its stages.
    pub fn finish_append(
        &mut self,
        append: AppendStart,
        ended: u64,
        succeeded: bool,
        observation: AppendObservation,
    )
        ensures
            *final(self) == old(self).with_append(append, ended, succeeded, observation),
    {
        let start = append.start;
        let kind = append.kind;
        self.boundary_span(
            start,
            Some((TaskTimingAppendStage::FactGate, kind)),
            observation.fact_gate,
        );
        self.boundary_span(start, Some((TaskTimingAppendStage::Draft, kind)), observation.draft);
        let mut writer: Option<WriterObservation> = None;
        if let Some(ledger) = observation.ledger {
            self.ledger_span(append, TaskTimingAppendStage::LedgerSend, ledger.send);
            self.ledger_span(append, TaskTimingAppendStage::LedgerQueue, ledger.queue);
            if let Some(durable_started) = ledger.durable_started_at {
                let mut durable = ledger.persistence;
                durable.started_at = Some(durable_started);
                self.ledger_span(append, TaskTimingAppendStage::LedgerDurable, durable);
            }
            self.ledger_span(append, TaskTimingAppendStage::LedgerPersistence, ledger.persistence);
            self.ledger_span(append, TaskTimingAppendStage::LedgerPublication, ledger.publication);
            writer = Some(writer_observation(&ledger));
        }
        let mut observations = self.read_observations(start.phase);
        let mut boundaries = observations.read_boundaries();
        let mut stages = boundaries.read_stages(kind);
        stages.writer = writer;
        boundaries.write_stages(kind, stages);
        observations.boundaries = Some(boundaries);
        self.write_observations(start.phase, observations);
        self.boundary_span(
            start,
            Some((TaskTimingAppendStage::WriterResponse, kind)),
            observation.writer_response,
        );
        self.boundary_span(
            start,
            Some((TaskTimingAppendStage::DeviceDiagnostics, kind)),
            observation.device_diagnostics,
        );
        self.boundary_span(
            start,
            Some((TaskTimingAppendStage::FactSync, kind)),
            observation.fact_sync,
        );
        self.boundary_span(
            start,
            Some((TaskTimingAppendStage::Pipeline, kind)),
            observation.pipeline,
        );
        self.boundary_span(start, None, AppendCallSpan::ended(start.started, ended, succeeded));
    }

    fn ledger_span(
        &mut self,
        append: AppendStart,
        stage: TaskTimingAppendStage,
        span: LedgerAppendSpan,
    )
        ensures
            *final(self) == old(self).with_stage(append, stage, ledger_call(span)),
    {
        if span.state == LedgerObservationState::Unobserved {
            return;
        }
        self.boundary_span(
            append.start,
            Some((stage, append.kind)),
            AppendCallSpan {
                present: true,
                started: span.started_at,
                ended: span.finished_at,
                result: span.result,
            },
        );
    }
}

/// A boundary that the kernel timed by itself.
#[derive(Debug, Clone, Copy, PartialEq, Eq, Structural)]
pub struct KernelBoundaryTiming {
    pub boundary: TaskTimingBoundary,
    pub context: TaskTimingContext,
    pub identity: BoundaryIdentity,
    pub started: u64,
    pub ended: u64,
    pub succeeded: bool,
}

#[derive(Debug, Clone, Copy, PartialEq, Eq, Structural)]
pub struct AppendStart {
    pub start: BoundaryStart,
    pub kind: TaskAppend,
}

#[derive(Debug, Clone, Copy, PartialEq, Eq, Structural)]
pub enum LedgerObservationState {
    Unobserved,
    Observed,
    Incomplete,
}

/// A span that the ledger's writer observed.
#[derive(Debug, Clone, Copy, PartialEq, Eq, Structural)]
pub struct LedgerAppendSpan {
    pub state: LedgerObservationState,
    pub started_at: Option<u64>,
    pub finished_at: Option<u64>,
    pub result: Option<TaskTimingResult>,
}

/// The call that a ledger span is.
pub open spec fn ledger_call(span: LedgerAppendSpan) -> AppendCallSpan {
    AppendCallSpan {
        present: span.state != LedgerObservationState::Unobserved,
        started: span.started_at,
        ended: span.finished_at,
        result: span.result,
    }
}

/// What the ledger observed of an append.
#[derive(Debug, Clone, Copy, PartialEq, Eq, Structural)]
pub struct LedgerAppendObservation {
    pub send: LedgerAppendSpan,
    pub queue: LedgerAppendSpan,
    pub durable_started_at: Option<u64>,
    pub persistence: LedgerAppendSpan,
    pub publication: LedgerAppendSpan,
    pub previous_processing: LedgerAppendSpan,
    pub previous_after_reply: LedgerAppendSpan,
    pub previous_reply_result: Option<TaskTimingResult>,
    pub writer_receive_order: WriterReceiveOrder,
    pub previous_work_relation: PreviousWorkRelation,
    pub previous_command: Option<WriterCommand>,
    /// What was seen of the page, where the command before was for one.
    pub previous_project_view: Option<LedgerProjectView>,
}

/// When the writer received an append, beside the return of its sending.
#[derive(Debug, Clone, Copy, PartialEq, Eq, Structural)]
pub enum WriterReceiveOrder {
    Unobserved,
    Incomplete,
    BeforeSendReturned,
    AtSendReturn,
    AfterSendReturned,
}

/// How the writer's earlier work lies to the sending of an append.
#[derive(Debug, Clone, Copy, PartialEq, Eq, Structural)]
pub enum PreviousWorkRelation {
    Unobserved,
    Incomplete,
    CompletedBySendStart,
    OverlapsSend,
    StartedAtOrAfterSendReturn,
}

/// What the writer was asked to do.
#[derive(Debug, Clone, Copy, PartialEq, Eq, Structural)]
pub enum WriterCommand {
    ReleaseLabPin,
    RetentionCandidates,
    AdmitArtifactEviction,
    FinishArtifactEviction,
    AppendTransaction,
    Append,
    ReconcileScheduledPolicySettlement,
    Query,
    QueryPage,
    ProjectViewPage,
    ResolveArtifact,
    ProjectSchedulingOutcomes,
    LatestSequence,
    Subscribe,
    ReplayPage,
    Project,
    ProjectPage,
    Shutdown,
}

/// A number that the ledger counted.
#[derive(Debug, Clone, Copy, PartialEq, Eq, Structural)]
pub enum LedgerCount {
    Unobserved,
    Observed(u64),
    Incomplete,
}

/// The limits under which a page of a view is read.
#[derive(Debug, Clone, Copy, PartialEq, Eq, Structural)]
pub struct LedgerReadBudget {
    pub max_bytes: u64,
    pub max_events: LedgerCount,
    pub deadline: u64,
}

/// What the ledger observed of a page of a view.
#[derive(Debug, Clone, Copy, PartialEq, Eq, Structural)]
pub struct LedgerProjectView {
    pub admission: LedgerAppendSpan,
    pub connection: LedgerAppendSpan,
    pub with_connection: LedgerAppendSpan,
    pub begin_transaction: LedgerAppendSpan,
    pub read_snapshot: LedgerAppendSpan,
    pub verify_snapshot: LedgerAppendSpan,
    pub prepare_events: LedgerAppendSpan,
    pub select_sequences: LedgerAppendSpan,
    pub project_page: LedgerAppendSpan,
    pub commit: LedgerAppendSpan,
    pub rollback: LedgerAppendSpan,
    pub read_budget: Option<LedgerReadBudget>,
    pub requested_limit: LedgerCount,
    pub selection_limit: LedgerCount,
    pub max_page_events: LedgerCount,
    pub max_response_bytes: LedgerCount,
    pub max_recovery_context_events: LedgerCount,
    pub raw_bytes: LedgerCount,
    pub raw_event_rows: LedgerCount,
    pub raw_link_rows: LedgerCount,
    pub raw_artifact_rows: LedgerCount,
    pub verified_records: LedgerCount,
    pub prepared_events: LedgerCount,
    pub selected_sequences: LedgerCount,
    pub returned_events: LedgerCount,
    pub returned_recovery_groups: LedgerCount,
}

/// What was observed of the stages of an append.
#[derive(Debug, Clone, Copy, PartialEq, Eq, Structural)]
pub struct AppendObservation {
    pub fact_gate: AppendCallSpan,
    pub draft: AppendCallSpan,
    pub writer_response: AppendCallSpan,
    pub device_diagnostics: AppendCallSpan,
    pub fact_sync: AppendCallSpan,
    pub pipeline: AppendCallSpan,
    pub ledger: Option<LedgerAppendObservation>,
}

/// An instant relative to the one at which an append was sent.
#[derive(Debug, Clone, Copy, PartialEq, Eq, Structural)]
pub enum WriterEndpoint {
    Unobserved,
    Unavailable { reason: TimingObservationIssue },
    BeforeSendStart { distance_us: ObservedMicroseconds },
    AtSendStart,
    AfterSendStart { distance_us: ObservedMicroseconds },
}

pub open spec fn endpoint_seen(anchor: Option<u64>, endpoint: Option<u64>) -> WriterEndpoint {
    match (endpoint, anchor) {
        (None, _) => WriterEndpoint::Unobserved,
        (Some(_), None) => WriterEndpoint::Unavailable {
            reason: TimingObservationIssue::CallIncomplete,
        },
        (Some(endpoint), Some(anchor)) => if endpoint < anchor {
            WriterEndpoint::BeforeSendStart {
                distance_us: span_between(endpoint, anchor),
            }
        } else if endpoint == anchor {
            WriterEndpoint::AtSendStart
        } else {
            WriterEndpoint::AfterSendStart {
                distance_us: span_between(anchor, endpoint),
            }
        },
    }
}

pub fn writer_endpoint(anchor: Option<u64>, endpoint: Option<u64>) -> (seen: WriterEndpoint)
    ensures
        seen == endpoint_seen(anchor, endpoint),
{
    match (endpoint, anchor) {
        (None, _) => WriterEndpoint::Unobserved,
        (Some(_), None) => WriterEndpoint::Unavailable {
            reason: TimingObservationIssue::CallIncomplete,
        },
        (Some(endpoint), Some(anchor)) => {
            if endpoint < anchor {
                WriterEndpoint::BeforeSendStart {
                    distance_us: observe_instant_span(endpoint, anchor),
                }
            } else if endpoint == anchor {
                WriterEndpoint::AtSendStart
            } else {
                WriterEndpoint::AfterSendStart {
                    distance_us: observe_instant_span(anchor, endpoint),
                }
            }
        },
    }
}

/// A span of the writer, relative to the instant at which an append was sent.
#[derive(Debug, Clone, Copy, PartialEq, Eq, Structural)]
pub struct WriterSpan {
    pub status: TaskTimingObservationState,
    pub started: WriterEndpoint,
    pub finished: WriterEndpoint,
    pub elapsed_us: Option<ObservedMicroseconds>,
    pub result: TaskTimingResult,
}

/// A writer span is observed when both endpoints and the result are known.
pub open spec fn writer_span_seen(anchor: Option<u64>, span: LedgerAppendSpan) -> WriterSpan {
    let elapsed = match (span.started_at, span.finished_at) {
        (Some(started), Some(finished)) => span_between(started, finished),
        _ => ObservedMicroseconds::Unavailable { reason: TimingObservationIssue::CallIncomplete },
    };
    WriterSpan {
        status: if span.state == LedgerObservationState::Unobserved {
            TaskTimingObservationState::Unobserved
        } else {
            match elapsed {
                ObservedMicroseconds::Unavailable { reason } => {
                    TaskTimingObservationState::Incomplete { reason }
                },
                ObservedMicroseconds::Measured { .. } => if span.state
                    == LedgerObservationState::Observed && span.result is Some {
                    TaskTimingObservationState::Observed
                } else {
                    TaskTimingObservationState::Incomplete {
                        reason: TimingObservationIssue::CallIncomplete,
                    }
                },
            }
        },
        started: endpoint_seen(anchor, span.started_at),
        finished: endpoint_seen(anchor, span.finished_at),
        elapsed_us: if span.state == LedgerObservationState::Unobserved {
            None
        } else {
            Some(elapsed)
        },
        result: match span.result {
            Some(result) => result,
            None => TaskTimingResult::Unobserved,
        },
    }
}

fn writer_result(result: Option<TaskTimingResult>) -> (seen: TaskTimingResult)
    ensures
        seen == match result {
            Some(result) => result,
            None => TaskTimingResult::Unobserved,
        },
{
    match result {
        Some(result) => result,
        None => TaskTimingResult::Unobserved,
    }
}

pub fn writer_span(anchor: Option<u64>, span: LedgerAppendSpan) -> (seen: WriterSpan)
    ensures
        seen == writer_span_seen(anchor, span),
{
    let started = writer_endpoint(anchor, span.started_at);
    let finished = writer_endpoint(anchor, span.finished_at);
    let result = writer_result(span.result);
    if span.state == LedgerObservationState::Unobserved {
        return WriterSpan {
            status: TaskTimingObservationState::Unobserved,
            started,
            finished,
            elapsed_us: None,
            result,
        };
    }
    let elapsed = match (span.started_at, span.finished_at) {
        (Some(started), Some(finished)) => observe_instant_span(started, finished),
        _ => ObservedMicroseconds::Unavailable { reason: TimingObservationIssue::CallIncomplete },
    };
    let status = match elapsed {
        ObservedMicroseconds::Unavailable { reason } => TaskTimingObservationState::Incomplete {
            reason,
        },
        ObservedMicroseconds::Measured { .. } => {
            if span.state == LedgerObservationState::Observed && span.result.is_some() {
                TaskTimingObservationState::Observed
            } else {
                TaskTimingObservationState::Incomplete {
                    reason: TimingObservationIssue::CallIncomplete,
                }
            }
        },
    };
    WriterSpan { status, started, finished, elapsed_us: Some(elapsed), result }
}

/// A number that was counted, or why it is not known.
#[derive(Debug, Clone, Copy, PartialEq, Eq, Structural)]
pub enum ViewCount {
    Unobserved,
    Measured { value: u64 },
    Unavailable { reason: TimingObservationIssue },
}

pub open spec fn count_seen(count: LedgerCount) -> ViewCount {
    match count {
        LedgerCount::Unobserved => ViewCount::Unobserved,
        LedgerCount::Observed(value) => ViewCount::Measured { value },
        LedgerCount::Incomplete => ViewCount::Unavailable {
            reason: TimingObservationIssue::CountOverflow,
        },
    }
}

pub fn project_view_count(count: LedgerCount) -> (seen: ViewCount)
    ensures
        seen == count_seen(count),
{
    match count {
        LedgerCount::Unobserved => ViewCount::Unobserved,
        LedgerCount::Observed(value) => ViewCount::Measured { value },
        LedgerCount::Incomplete => ViewCount::Unavailable {
            reason: TimingObservationIssue::CountOverflow,
        },
    }
}

#[derive(Debug, Clone, Copy, PartialEq, Eq, Structural)]
pub struct ViewReadBudget {
    pub max_bytes: u64,
    pub max_events: ViewCount,
    pub deadline: WriterEndpoint,
}

/// A page of a view, relative to the instant at which an append was sent.
#[derive(Debug, Clone, Copy, PartialEq, Eq, Structural)]
pub struct ProjectViewObservation {
    pub admission: WriterSpan,
    pub connection: WriterSpan,
    pub with_connection: WriterSpan,
    pub begin_transaction: WriterSpan,
    pub read_snapshot: WriterSpan,
    pub verify_snapshot: WriterSpan,
    pub prepare_events: WriterSpan,
    pub select_sequences: WriterSpan,
    pub project_page: WriterSpan,
    pub commit: WriterSpan,
    pub rollback: WriterSpan,
    pub read_budget: Option<ViewReadBudget>,
    pub requested_limit: ViewCount,
    pub selection_limit: ViewCount,
    pub max_page_events: ViewCount,
    pub max_response_bytes: ViewCount,
    pub max_recovery_context_events: ViewCount,
    pub raw_bytes: ViewCount,
    pub raw_event_rows: ViewCount,
    pub raw_link_rows: ViewCount,
    pub raw_artifact_rows: ViewCount,
    pub verified_records: ViewCount,
    pub prepared_events: ViewCount,
    pub selected_sequences: ViewCount,
    pub returned_events: ViewCount,
    pub returned_recovery_groups: ViewCount,
}

pub open spec fn project_view_seen(anchor: Option<u64>, view: LedgerProjectView) ->
    ProjectViewObservation {
    ProjectViewObservation {
        admission: writer_span_seen(anchor, view.admission),
        connection: writer_span_seen(anchor, view.connection),
        with_connection: writer_span_seen(anchor, view.with_connection),
        begin_transaction: writer_span_seen(anchor, view.begin_transaction),
        read_snapshot: writer_span_seen(anchor, view.read_snapshot),
        verify_snapshot: writer_span_seen(anchor, view.verify_snapshot),
        prepare_events: writer_span_seen(anchor, view.prepare_events),
        select_sequences: writer_span_seen(anchor, view.select_sequences),
        project_page: writer_span_seen(anchor, view.project_page),
        commit: writer_span_seen(anchor, view.commit),
        rollback: writer_span_seen(anchor, view.rollback),
        read_budget: match view.read_budget {
            Some(budget) => Some(
                ViewReadBudget {
                    max_bytes: budget.max_bytes,
                    max_events: count_seen(budget.max_events),
                    deadline: endpoint_seen(anchor, Some(budget.deadline)),
                },
            ),
            None => None,
        },
        requested_limit: count_seen(view.requested_limit),
        selection_limit: count_seen(view.selection_limit),
        max_page_events: count_seen(view.max_page_events),
        max_response_bytes: count_seen(view.max_response_bytes),
        max_recovery_context_events: count_seen(view.max_recovery_context_events),
        raw_bytes: count_seen(view.raw_bytes),
        raw_event_rows: count_seen(view.raw_event_rows),
        raw_link_rows: count_seen(view.raw_link_rows),
        raw_artifact_rows: count_seen(view.raw_artifact_rows),
        verified_records: count_seen(view.verified_records),
        prepared_events: count_seen(view.prepared_events),
        selected_sequences: count_seen(view.selected_sequences),
        returned_events: count_seen(view.returned_events),
        returned_recovery_groups: count_seen(view.returned_recovery_groups),
    }
}

pub fn project_view_observation(anchor: Option<u64>, view: &LedgerProjectView) -> (seen:
    ProjectViewObservation)
    ensures
        seen == project_view_seen(anchor, *view),
{
    let read_budget = match view.read_budget {
        Some(budget) => Some(
            ViewReadBudget {
                max_bytes: budget.max_bytes,
                max_events: project_view_count(budget.max_events),
                deadline: writer_endpoint(anchor, Some(budget.deadline)),
            },
        ),
        None => None,
    };
    ProjectViewObservation {
        admission: writer_span(anchor, view.admission),
        connection: writer_span(anchor, view.connection),
        with_connection: writer_span(anchor, view.with_connection),
        begin_transaction: writer_span(anchor, view.begin_transaction),
        read_snapshot: writer_span(anchor, view.read_snapshot),
        verify_snapshot: writer_span(anchor, view.verify_snapshot),
        prepare_events: writer_span(anchor, view.prepare_events),
        select_sequences: writer_span(anchor, view.select_sequences),
        project_page: writer_span(anchor, view.project_page),
        commit: writer_span(anchor, view.commit),
        rollback: writer_span(anchor, view.rollback),
        read_budget,
        requested_limit: project_view_count(view.requested_limit),
        selection_limit: project_view_count(view.selection_limit),
        max_page_events: project_view_count(view.max_page_events),
        max_response_bytes: project_view_count(view.max_response_bytes),
        max_recovery_context_events: project_view_count(view.max_recovery_context_events),
        raw_bytes: project_view_count(view.raw_bytes),
        raw_event_rows: project_view_count(view.raw_event_rows),
        raw_link_rows: project_view_count(view.raw_link_rows),
        raw_artifact_rows: project_view_count(view.raw_artifact_rows),
        verified_records: project_view_count(view.verified_records),
        prepared_events: project_view_count(view.prepared_events),
        selected_sequences: project_view_count(view.selected_sequences),
        returned_events: project_view_count(view.returned_events),
        returned_recovery_groups: project_view_count(view.returned_recovery_groups),
    }
}

/// What the writer says of an append and of its work before it.
#[derive(Debug, Clone, Copy, PartialEq, Eq, Structural)]
pub struct WriterObservation {
    pub send_returned: WriterEndpoint,
    pub writer_received: WriterEndpoint,
    pub receive_order: WriterReceiveOrder,
    pub previous_work_relation: PreviousWorkRelation,
    pub previous_command: Option<WriterCommand>,
    pub previous_processing: WriterSpan,
    pub previous_after_reply: WriterSpan,
    pub previous_reply_result: TaskTimingResult,
    pub previous_project_view: Option<ProjectViewObservation>,
}

pub open spec fn writer_seen(ledger: LedgerAppendObservation) -> WriterObservation {
    let anchor = ledger.send.started_at;
    WriterObservation {
        send_returned: endpoint_seen(anchor, ledger.send.finished_at),
        writer_received: endpoint_seen(anchor, ledger.queue.finished_at),
        receive_order: ledger.writer_receive_order,
        previous_work_relation: ledger.previous_work_relation,
        previous_command: ledger.previous_command,
        previous_processing: writer_span_seen(anchor, ledger.previous_processing),
        previous_after_reply: writer_span_seen(anchor, ledger.previous_after_reply),
        previous_reply_result: match ledger.previous_reply_result {
            Some(result) => result,
            None => TaskTimingResult::Unobserved,
        },
        previous_project_view: match ledger.previous_project_view {
            Some(view) => Some(project_view_seen(anchor, view)),
            None => None,
        },
    }
}

pub fn writer_observation(ledger: &LedgerAppendObservation) -> (seen: WriterObservation)
    ensures
        seen == writer_seen(*ledger),
{
    let anchor = ledger.send.started_at;
    let previous_project_view = match &ledger.previous_project_view {
        Some(view) => Some(project_view_observation(anchor, view)),
        None => None,
    };
    WriterObservation {
        send_returned: writer_endpoint(anchor, ledger.send.finished_at),
        writer_received: writer_endpoint(anchor, ledger.queue.finished_at),
        receive_order: ledger.writer_receive_order,
        previous_work_relation: ledger.previous_work_relation,
        previous_command: ledger.previous_command,
        previous_processing: writer_span(anchor, ledger.previous_processing),
        previous_after_reply: writer_span(anchor, ledger.previous_after_reply),
        previous_reply_result: writer_result(ledger.previous_reply_result),
        previous_project_view,
    }
}

/// The summary of some samples, in order.
pub open spec fn summarized(samples: Seq<TaskTimingSample>) -> TaskTimingSpanSummary
    decreases samples.len(),
{
    if samples.len() == 0 {
        unobserved_span()
    } else {
        observed(summarized(samples.drop_last()), samples.last())
    }
}

/// The time of a sample that was measured.
pub open spec fn measured_us(sample: TaskTimingSample) -> nat {
    match sample.elapsed_us {
        ObservedMicroseconds::Measured { value } => value as nat,
        _ => 0,
    }
}

pub open spec fn total_measured(samples: Seq<TaskTimingSample>) -> nat
    decreases samples.len(),
{
    if samples.len() == 0 {
        0
    } else {
        total_measured(samples.drop_last()) + measured_us(samples.last())
    }
}

pub open spec fn failed_count(samples: Seq<TaskTimingSample>) -> nat
    decreases samples.len(),
{
    if samples.len() == 0 {
        0
    } else {
        failed_count(samples.drop_last()) + if samples.last().result == TaskTimingResult::Failed {
            1nat
        } else {
            0
        }
    }
}

/// Of samples that were all measured, whose budgets could be read and whose
/// sum fits, a summary says how many there were, how many failed, how long
/// they took together and how long the longest took.
pub proof fn law_summary_counts_samples(samples: Seq<TaskTimingSample>)
    requires
        0 < samples.len() <= u64::MAX,
        forall|i: int|
            0 <= i < samples.len() ==> (#[trigger] samples[i]).elapsed_us is Measured
                && !(samples[i].budget_before is Unavailable),
        total_measured(samples) <= u64::MAX,
    ensures
        ({
            let summary = summarized(samples);
            &&& summary.status is Observed
            &&& summary.attempts == Some(samples.len() as u64)
            &&& summary.errors == Some(failed_count(samples) as u64)
            &&& failed_count(samples) <= samples.len()
            &&& summary.total_us == Some(total_measured(samples) as u64)
            &&& summary.max_us matches Some(longest) && (forall|i: int|
                0 <= i < samples.len() ==> measured_us(#[trigger] samples[i]) <= longest)
                && exists|i: int|
                0 <= i < samples.len() && measured_us(#[trigger] samples[i]) == longest
        }),
    decreases samples.len(),
{
    let before = samples.drop_last();
    let last = samples.last();
    assert(last == samples[samples.len() - 1]);
    if before.len() == 0 {
        assert(summarized(before) == unobserved_span());
        assert(failed_count(before) == 0);
        assert(total_measured(before) == 0);
        assert(measured_us(samples[0]) == measured_us(last));
    } else {
        assert forall|i: int| 0 <= i < before.len() implies (#[trigger] before[i]).elapsed_us is Measured
            && !(before[i].budget_before is Unavailable) by {
            assert(before[i] == samples[i]);
        }
        law_summary_counts_samples(before);
        let longest_before = summarized(before).max_us->0;
        let witness = choose|i: int|
            0 <= i < before.len() && measured_us(#[trigger] before[i]) == longest_before;
        assert(samples[witness] == before[witness]);
        assert forall|i: int| 0 <= i < samples.len() implies measured_us(#[trigger] samples[i])
            <= summarized(samples).max_us->0 by {
            if i < before.len() {
                assert(before[i] == samples[i]);
            }
        }
    }
}

/// The expiry that is reported is the first one seen: later spans never
/// change it.
pub proof fn law_first_expiry_stays(
    observer: TaskTimingObserver,
    start: BoundaryStart,
    stage: Option<(TaskTimingAppendStage, TaskAppend)>,
    span: AppendCallSpan,
)
    requires
        observer.first_observed_expiry is Some,
    ensures
        observer.with_span(start, stage, span).first_observed_expiry
            == observer.first_observed_expiry,
{
}

/// A measured span is its length in whole microseconds, and one whose end lies
/// before its start is not measured.
pub proof fn law_spans_are_measured_in_microseconds(started: u64, ended: u64)
    ensures
        started <= ended ==> (span_between(started, ended) matches ObservedMicroseconds::Measured {
            value,
        } && 1_000 * value <= ended - started < 1_000 * value + 1_000),
        ended < started ==> span_between(started, ended) == (ObservedMicroseconds::Unavailable {
            reason: TimingObservationIssue::ClockReversed,
        }),
{
}

/// A budget has expired from its deadline on, with nothing left; before that
/// it shows the whole microseconds until the deadline.
pub proof fn law_budget_runs_out_at_its_deadline(context: TaskTimingContext, at: u64)
    ensures
        budget_seen(Some(context), Some(at)) matches TaskTimingBudgetObservation::Observed {
            origin,
            expired,
            remaining_us,
        } && origin == context.origin && (expired <==> context.deadline <= at) && (expired
            ==> remaining_us == 0) && (!expired ==> 1_000 * remaining_us <= context.deadline - at
            < 1_000 * remaining_us + 1_000),
        budget_seen(None, Some(at)) == TaskTimingBudgetObservation::NotStarted,
        budget_seen(Some(context), None) == TaskTimingBudgetObservation::Unobserved,
{
}

/// A sample counts as one attempt, and as one error exactly when it failed; a
/// count that would not fit is given up, and the summary says so.
pub proof fn law_sample_is_counted(summary: TaskTimingSpanSummary, sample: TaskTimingSample)
    ensures
        summary.attempts matches Some(attempts) ==> (attempts < u64::MAX ==> observed(
            summary,
            sample,
        ).attempts == Some((attempts + 1) as u64)) && (attempts == u64::MAX ==> observed(
            summary,
            sample,
        ).attempts is None && observed(summary, sample).status is Incomplete),
        summary.errors matches Some(errors) ==> (sample.result != TaskTimingResult::Failed
            ==> observed(summary, sample).errors == Some(errors)) && (sample.result
            == TaskTimingResult::Failed && errors < u64::MAX ==> observed(summary, sample).errors
            == Some((errors + 1) as u64)),
        observed(summary, sample).last == Some(sample),
        summary.status is Incomplete ==> observed(summary, sample).status == summary.status,
{
}

/// A measured sample lengthens the total by its own length and never shortens
/// the longest; an unmeasured one leaves neither, and the summary incomplete.
pub proof fn law_sample_adds_its_length(summary: TaskTimingSpanSummary, sample: TaskTimingSample)
    requires
        !(summary.status is Unobserved),
    ensures
        sample.elapsed_us matches ObservedMicroseconds::Measured { value } ==> (
        summary.total_us matches Some(total) ==> (total + value <= u64::MAX ==> observed(
            summary,
            sample,
        ).total_us == Some((total + value) as u64)) && (total + value > u64::MAX ==> observed(
            summary,
            sample,
        ).total_us is None && observed(summary, sample).status is Incomplete)) && (
        summary.max_us matches Some(longest) ==> (observed(summary, sample).max_us matches Some(now)
            && now >= longest && now >= value && (now == longest || now == value))),
        sample.elapsed_us is Unavailable ==> observed(summary, sample).total_us is None && observed(
            summary,
            sample,
        ).max_us is None && observed(summary, sample).status is Incomplete,
{
}

/// The stages of an append are kept apart: what is set for one is read back
/// for it, and the others stay.
pub proof fn law_append_stages_are_kept_apart(
    stages: TaskTimingAppendStages,
    set: TaskTimingAppendStage,
    other: TaskTimingAppendStage,
    span: TaskTimingSpanSummary,
)
    ensures
        stages.with(set, span).span(set) == span,
        set != other ==> stages.with(set, span).span(other) == stages.span(other),
        stages.with(set, span).writer == stages.writer,
{
}

/// The boundaries of a phase are kept apart in the same way, and so are the
/// three kinds of append.
pub proof fn law_boundaries_are_kept_apart(
    spans: TaskTimingBoundarySpans,
    set: TaskTimingBoundary,
    other: TaskTimingBoundary,
    span: TaskTimingSpanSummary,
    boundaries: TaskTimingBoundaries,
    kind: TaskAppend,
    other_kind: TaskAppend,
    stages: TaskTimingAppendStages,
)
    ensures
        spans.with(set, span).span(set) == span,
        set != other ==> spans.with(set, span).span(other) == spans.span(other),
        boundaries.with_stages(kind, stages).stages(kind) == stages,
        kind != other_kind ==> boundaries.with_stages(kind, stages).stages(other_kind)
            == boundaries.stages(other_kind),
        boundaries.with_stages(kind, stages).spans == boundaries.spans,
{
}

/// A span is counted in its own phase only, and one that is not there changes
/// nothing.
pub proof fn law_span_is_counted_in_its_phase(
    observer: TaskTimingObserver,
    start: BoundaryStart,
    stage: Option<(TaskTimingAppendStage, TaskAppend)>,
    span: AppendCallSpan,
    other: TaskTimingPhase,
)
    ensures
        !span.present ==> observer.with_span(start, stage, span) == observer,
        other != start.phase ==> observer.with_span(start, stage, span).observations(other)
            == observer.observations(other),
        span.present ==> (observer.with_span(start, stage, span).observations(
            start.phase,
        ).boundaries matches Some(after) && after.summary(start.boundary, stage).last_call is Some),
        observer.with_span(start, stage, span).phase == observer.phase,
        observer.with_span(start, stage, span).context == observer.context,
        observer.with_span(start, stage, span).input_completion == observer.input_completion,
        observer.with_span(start, stage, span).effect_completion == observer.effect_completion,
{
}

/// A span that began within the task's budget and ended past it is the first
/// expiry seen, when none was seen before.
pub proof fn law_expiry_is_seen_where_it_happens(
    observer: TaskTimingObserver,
    start: BoundaryStart,
    context: TaskTimingContext,
    ended: u64,
    succeeded: bool,
)
    requires
        observer.first_observed_expiry is None,
        observer.observations(start.phase).boundaries is None,
        start.context == Some(context),
        context.origin == TaskTimingBudgetOrigin::Task,
        start.started <= ended,
    ensures
        observer.with_span(
            start,
            None,
            ended_span(start.started, ended, succeeded),
        ).first_observed_expiry is Some <==> start.started < context.deadline <= ended,
        observer.with_span(
            start,
            None,
            ended_span(start.started, ended, succeeded),
        ).first_observed_expiry matches Some(expiry) ==> expiry.phase == start.phase
            && expiry.boundary == start.boundary && expiry.append_stage is None,
{
}

/// A call that did not end, or did not say how, leaves its summary incomplete.
pub proof fn law_unfinished_call_is_incomplete(
    summary: TaskTimingSpanSummary,
    start: BoundaryStart,
    span: AppendCallSpan,
)
    requires
        span.started is None || span.ended is None || span.result is None,
    ensures
        span_observed(summary, start, span).status is Incomplete,
        span.result is None ==> span_observed(summary, start, span).errors is None,
        span.started is None ==> span_observed(summary, start, span).attempts is None,
{
}

/// An effect that was recorded as done begins the wait for what follows it at
/// the moment the record ended, and that wait ends where the wait after the
/// input begins.
pub proof fn law_effect_bridges_to_the_wait(
    observer: TaskTimingObserver,
    timing: KernelBoundaryTiming,
)
    ensures
        timing.boundary == TaskTimingBoundary::EffectCompletedRecord ==> (
        observer.with_kernel_boundary(timing).effect_completion is Some <==> timing.succeeded) && (
        timing.succeeded ==> (observer.with_kernel_boundary(timing).effect_completion matches Some(
            bridge,
        ) && bridge.started == timing.ended && bridge.boundary
            == TaskTimingBoundary::EffectCompletedToPostInputWait && bridge.identity
            == timing.identity)) && observer.with_kernel_boundary(timing).input_completion is None,
        timing.boundary == TaskTimingBoundary::PostInputWait ==> observer.with_kernel_boundary(
            timing,
        ).effect_completion is None,
        timing.boundary == TaskTimingBoundary::Input ==> observer.with_kernel_boundary(
            timing,
        ).effect_completion == observer.effect_completion,
{
}

/// A bridge is measured to its end only within one phase, one budget and one
/// action; otherwise it stays open.
pub proof fn law_bridge_belongs_to_one_action(
    observer: TaskTimingObserver,
    start: BoundaryStart,
    timing: KernelBoundaryTiming,
    ended: u64,
    succeeded: bool,
)
    ensures
        observer.bridge_span(start, timing, ended, succeeded).started == Some(start.started),
        observer.bridge_span(start, timing, ended, succeeded).ended is Some <==> start.phase
            == observer.phase && start.context == Some(timing.context) && start.identity
            == timing.identity && timing.identity.step_index is Some
            && timing.identity.action_id is Some,
        observer.bridge_span(start, timing, ended, succeeded).ended matches Some(at) ==> at == ended,
{
}

/// What the writer saw is told by its distance from the start of the send, on
/// the side on which it lies.
pub proof fn law_writer_endpoints_are_told_by_distance(anchor: u64, endpoint: u64)
    ensures
        endpoint == anchor ==> endpoint_seen(Some(anchor), Some(endpoint))
            == WriterEndpoint::AtSendStart,
        endpoint < anchor ==> (endpoint_seen(
            Some(anchor),
            Some(endpoint),
        ) matches WriterEndpoint::BeforeSendStart {
            distance_us: ObservedMicroseconds::Measured { value },
        } && 1_000 * value <= anchor - endpoint < 1_000 * value + 1_000),
        endpoint > anchor ==> (endpoint_seen(
            Some(anchor),
            Some(endpoint),
        ) matches WriterEndpoint::AfterSendStart {
            distance_us: ObservedMicroseconds::Measured { value },
        } && 1_000 * value <= endpoint - anchor < 1_000 * value + 1_000),
        endpoint_seen(Some(anchor), None) == WriterEndpoint::Unobserved,
        endpoint_seen(None, Some(endpoint)) is Unavailable,
{
}

/// A span of the writer counts as observed exactly when it was seen whole, in
/// order and with its result.
pub proof fn law_writer_span_is_seen_whole(anchor: Option<u64>, span: LedgerAppendSpan)
    ensures
        writer_span_seen(anchor, span).status is Observed <==> span.state
            == LedgerObservationState::Observed && span.result is Some && (
        span.started_at matches Some(started) && (span.finished_at matches Some(finished) && started
            <= finished)),
        writer_span_seen(anchor, span).status is Unobserved <==> span.state
            == LedgerObservationState::Unobserved,
        span.state == LedgerObservationState::Unobserved <==> writer_span_seen(
            anchor,
            span,
        ).elapsed_us is None,
{
}

/// A count that the ledger did not finish is told as one that did not fit.
pub proof fn law_ledger_counts_are_told(value: u64)
    ensures
        count_seen(LedgerCount::Observed(value)) == (ViewCount::Measured { value }),
        count_seen(LedgerCount::Unobserved) == ViewCount::Unobserved,
        count_seen(LedgerCount::Incomplete) is Unavailable,
{
}

} // verus!
