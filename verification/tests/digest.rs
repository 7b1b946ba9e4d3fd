//! Digests, texts and timing.

use runtime_host::digest::{
    is_digest_text, join_with_zero, seed_from_digest, sha256, sha256_hex, sha256_seed,
};
use runtime_host::task_timing::{
    observe_instant_span, writer_endpoint, AppendCallSpan, AppendObservation, BoundaryIdentity,
    KernelBoundaryTiming, LedgerAppendObservation, LedgerAppendSpan, LedgerCount,
    LedgerObservationState, LedgerProjectView, LedgerReadBudget, ObservedMicroseconds,
    PreviousWorkRelation, TaskAppend, TaskTimingBoundary, TaskTimingBudgetObservation,
    TaskTimingBudgetOrigin, TaskTimingCheckPosition, TaskTimingContext, TaskTimingFailure,
    TaskTimingObservationState, TaskTimingObserver, TaskTimingPhase, TaskTimingResult,
    TaskTimingSample, TaskTimingSpanSummary, TimingObservationIssue, ViewCount, WriterCommand,
    WriterEndpoint, WriterReceiveOrder,
};

#[test]
fn digests_are_those_of_sha_256() {
    assert_eq!(
        sha256_hex(b"abc"),
        "ba7816bf8f01cfea414140de5dae2223b00361a396177a9cb410ff61f20015ad"
    );
    assert_eq!(
        sha256(b""),
        "sha256:e3b0c44298fc1c149afbf4c8996fb92427ae41e4649b934ca495991b7852b855"
    );
    assert_eq!(sha256_seed(b"abc"), 0xba78_16bf_8f01_cfea);
    assert_eq!(seed_from_digest(&vec![0, 0, 0, 0, 0, 0, 1, 2, 9, 9]), 258);
    assert_eq!(join_with_zero("a", &vec!["b", "c"]), b"a\0b\0c");
    assert!(is_digest_text(&sha256(b"x")));
    assert!(!is_digest_text("sha256:xyz"));
}

fn sample(elapsed_us: ObservedMicroseconds, result: TaskTimingResult) -> TaskTimingSample {
    TaskTimingSample {
        elapsed_us,
        budget_before: TaskTimingBudgetObservation::Unobserved,
        result,
        record_index: None,
        frame_id: None,
        recognition_id: None,
    }
}

#[test]
fn a_summary_counts_its_samples() {
    let mut summary = TaskTimingSpanSummary::new();
    summary.observe(sample(ObservedMicroseconds::Measured { value: 5 }, TaskTimingResult::Succeeded));
    summary.observe(sample(ObservedMicroseconds::Measured { value: 9 }, TaskTimingResult::Failed));
    assert_eq!(summary.attempts, Some(2));
    assert_eq!(summary.errors, Some(1));
    assert_eq!(summary.total_us, Some(14));
    assert_eq!(summary.max_us, Some(9));
}

#[test]
fn spans_of_a_clock_that_goes_back_are_not_measured() {
    assert_eq!(observe_instant_span(3_000, 8_999), ObservedMicroseconds::Measured { value: 5 });
    assert_eq!(
        observe_instant_span(8, 3),
        ObservedMicroseconds::Unavailable { reason: TimingObservationIssue::ClockReversed }
    );
    assert_eq!(writer_endpoint(Some(5), Some(5)), WriterEndpoint::AtSendStart);
    assert!(matches!(
        writer_endpoint(Some(5_000), Some(9_000)),
        WriterEndpoint::AfterSendStart { distance_us: ObservedMicroseconds::Measured { value: 4 } }
    ));
}

#[test]
fn the_first_expiry_of_a_budget_stays() {
    let mut observer = TaskTimingObserver::new();
    observer.begin_execution(TaskTimingContext {
        origin: TaskTimingBudgetOrigin::Task,
        deadline: 100,
    });
    let identity =
        BoundaryIdentity { step_index: None, action_id: None, frame_id: None, recognition_id: None };
    for (boundary, ended) in
        [(TaskTimingBoundary::Input, 150), (TaskTimingBoundary::PostInputWait, 250)]
    {
        let start = observer.begin_boundary(boundary, identity, 50);
        observer.finish_boundary(start, ended, true);
    }
    let first = observer.first_observed_expiry.expect("the budget ran out");
    assert_eq!(first.boundary, TaskTimingBoundary::Input);
    let mut span = AppendCallSpan::absent();
    span.begin(1);
    span.finish(4, true);
    assert_eq!(span.ended, Some(4));
}

const CONTEXT: TaskTimingContext =
    TaskTimingContext { origin: TaskTimingBudgetOrigin::Task, deadline: 10_000_000 };

const IDENTITY: BoundaryIdentity =
    BoundaryIdentity { step_index: Some(1), action_id: Some(2), frame_id: None, recognition_id: None };

#[test]
fn the_time_between_boundaries_is_counted() {
    let mut observer = TaskTimingObserver::new();
    observer.begin_execution(CONTEXT);
    let input = observer.begin_boundary(TaskTimingBoundary::Input, IDENTITY, 100_000);
    observer.finish_boundary(input, 150_000, true);
    for (boundary, started, ended) in [
        (TaskTimingBoundary::EffectCompletedRecord, 200_000, 230_000),
        (TaskTimingBoundary::PostInputWait, 260_000, 300_000),
    ] {
        observer.kernel_boundary(KernelBoundaryTiming {
            boundary,
            context: CONTEXT,
            identity: IDENTITY,
            started,
            ended,
            succeeded: true,
        });
    }
    let spans = observer.execution.boundaries.expect("boundaries").spans;
    assert_eq!(spans.input.total_us, Some(50));
    assert_eq!(spans.input_to_effect_completed.total_us, Some(80));
    assert_eq!(spans.effect_completed_record.total_us, Some(30));
    assert_eq!(spans.effect_completed_to_post_input_wait.total_us, Some(30));
    assert_eq!(spans.post_input_wait.total_us, Some(40));
}

#[test]
fn the_stages_of_an_append_are_counted() {
    let mut observer = TaskTimingObserver::new();
    observer.begin_execution(CONTEXT);
    let call = |started: u64, ended: u64| {
        let mut span = AppendCallSpan::absent();
        span.begin(started * 1_000);
        span.finish(ended * 1_000, true);
        span
    };
    let ledger = |started: u64, ended: u64| LedgerAppendSpan {
        state: LedgerObservationState::Observed,
        started_at: Some(started * 1_000),
        finished_at: Some(ended * 1_000),
        result: Some(TaskTimingResult::Succeeded),
    };
    let append = observer.begin_append(TaskAppend::RecognitionTask, IDENTITY, 10_000);
    observer.finish_append(
        append,
        90_000,
        true,
        AppendObservation {
            fact_gate: call(10, 12),
            draft: call(12, 20),
            writer_response: call(20, 70),
            device_diagnostics: AppendCallSpan::absent(),
            fact_sync: call(70, 75),
            pipeline: call(75, 90),
            ledger: Some(LedgerAppendObservation {
                send: ledger(20, 22),
                queue: ledger(22, 30),
                durable_started_at: Some(30_000),
                persistence: ledger(35, 50),
                publication: ledger(50, 60),
                previous_processing: ledger(5, 8),
                previous_after_reply: ledger(8, 9),
                previous_reply_result: None,
                writer_receive_order: WriterReceiveOrder::AfterSendReturned,
                previous_work_relation: PreviousWorkRelation::CompletedBySendStart,
                previous_command: Some(WriterCommand::ProjectViewPage),
                previous_project_view: Some(view(ledger(6, 7))),
            }),
        },
    );
    let boundaries = observer.execution.boundaries.expect("boundaries");
    assert_eq!(boundaries.spans.recognition_task_append.total_us, Some(80));
    let stages = boundaries.recognition_task_stages;
    assert_eq!(stages.draft.total_us, Some(8));
    assert_eq!(stages.ledger_durable.total_us, Some(20));
    assert_eq!(stages.ledger_persistence.total_us, Some(15));
    assert_eq!(stages.device_diagnostics.attempts, Some(0));
    assert_eq!(boundaries.effect_completed_stages.draft.attempts, Some(0));
    let writer = stages.writer.expect("writer");
    assert_eq!(writer.receive_order, WriterReceiveOrder::AfterSendReturned);
    assert_eq!(writer.previous_work_relation, PreviousWorkRelation::CompletedBySendStart);
    assert_eq!(writer.previous_command, Some(WriterCommand::ProjectViewPage));
    let page = writer.previous_project_view.expect("page");
    assert_eq!(page.commit.elapsed_us, Some(ObservedMicroseconds::Measured { value: 1 }));
    assert_eq!(page.rollback.status, TaskTimingObservationState::Unobserved);
    assert_eq!(page.raw_bytes, ViewCount::Measured { value: 12 });
    assert_eq!(page.returned_events, ViewCount::Unobserved);
    assert_eq!(
        page.prepared_events,
        ViewCount::Unavailable { reason: TimingObservationIssue::CountOverflow }
    );
    assert_eq!(
        page.read_budget.expect("budget").deadline,
        WriterEndpoint::AfterSendStart {
            distance_us: ObservedMicroseconds::Measured { value: 80 },
        }
    );
}

fn view(span: LedgerAppendSpan) -> LedgerProjectView {
    let none = LedgerAppendSpan {
        state: LedgerObservationState::Unobserved,
        started_at: None,
        finished_at: None,
        result: None,
    };
    LedgerProjectView {
        admission: span,
        connection: span,
        with_connection: span,
        begin_transaction: span,
        read_snapshot: span,
        verify_snapshot: span,
        prepare_events: span,
        select_sequences: span,
        project_page: span,
        commit: span,
        rollback: none,
        read_budget: Some(LedgerReadBudget {
            max_bytes: 64,
            max_events: LedgerCount::Observed(8),
            deadline: 100_000,
        }),
        requested_limit: LedgerCount::Observed(1),
        selection_limit: LedgerCount::Observed(2),
        max_page_events: LedgerCount::Observed(3),
        max_response_bytes: LedgerCount::Observed(4),
        max_recovery_context_events: LedgerCount::Observed(5),
        raw_bytes: LedgerCount::Observed(12),
        raw_event_rows: LedgerCount::Observed(6),
        raw_link_rows: LedgerCount::Observed(7),
        raw_artifact_rows: LedgerCount::Observed(8),
        verified_records: LedgerCount::Observed(9),
        prepared_events: LedgerCount::Incomplete,
        selected_sequences: LedgerCount::Observed(10),
        returned_events: LedgerCount::Unobserved,
        returned_recovery_groups: LedgerCount::Unobserved,
    }
}

#[test]
fn instants_less_than_a_microsecond_apart_are_told_apart() {
    assert_eq!(writer_endpoint(Some(5_000), Some(5_000)), WriterEndpoint::AtSendStart);
    assert_eq!(
        writer_endpoint(Some(5_000), Some(5_001)),
        WriterEndpoint::AfterSendStart { distance_us: ObservedMicroseconds::Measured { value: 0 } }
    );
}

#[test]
fn a_timed_failure_is_noted_with_its_phase() {
    let mut observer = TaskTimingObserver::new();
    observer.task_failure(None, None);
    assert_eq!(observer.task_failure, None);
    observer.begin_execution(CONTEXT);
    let position = TaskTimingCheckPosition { number: 3 };
    observer.task_failure(Some(TaskTimingFailure { number: 8 }), Some(position));
    let failure = observer.task_failure.expect("noted");
    assert_eq!(failure.phase, TaskTimingPhase::Execution);
    assert_eq!(failure.origin, Some(TaskTimingBudgetOrigin::Task));
    assert_eq!(failure.check_position, Some(position));
}

#[test]
fn samples_count_in_the_phase_of_the_task() {
    let mut observer = TaskTimingObserver::new();
    let measured =
        sample(ObservedMicroseconds::Measured { value: 7 }, TaskTimingResult::Succeeded);
    observer.record_evaluation(measured);
    assert_eq!(observer.budget_at(5), TaskTimingBudgetObservation::NotStarted);
    observer.begin_execution(CONTEXT);
    assert_eq!(observer.record_write(measured), TaskTimingPhase::Execution);
    assert_eq!(
        observer.budget_at(9_000_000),
        TaskTimingBudgetObservation::Observed {
            origin: TaskTimingBudgetOrigin::Task,
            expired: false,
            remaining_us: 1_000,
        }
    );
    observer.begin_finalization();
    assert_eq!(observer.phase, TaskTimingPhase::Finalization);
    observer.replace_context(None);
    assert_eq!(observer.context, None);
    assert_eq!(observer.preflight.recognition_evaluate.attempts, Some(1));
    assert_eq!(observer.execution.diagnostic_record_write.total_us, Some(7));
    assert_eq!(observer.finalization.diagnostic_record_write.attempts, Some(0));
}
