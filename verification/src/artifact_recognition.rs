//! The course of a recognition on a saved artifact: which step follows which,
//! what stops it, and how its failure is answered.

use vstd::prelude::*;

use crate::error::{RuntimeHostError, RuntimeHostResult};
use crate::saved_artifact::{
    add_verified_bytes, captured_dimensions, check_deadline, check_package_size,
    check_source_frozen, check_source_root, prove_source, same_path, source_error, source_frozen,
    source_proof, source_refusal, SavedArtifactSource, SourceEvent, SourceLedger,
    MAX_VERIFIED_SOURCE_BYTES,
};

verus! {

/// What the artifacts of a source came to while its ledger was read.
#[derive(Debug, Clone, Copy)]
pub struct SourceVerification {
    pub verified_bytes: u64,
    /// The error of the artifact that failed last.
    pub failure: Option<RuntimeHostError>,
}

/// The refusal of an artifact before it is read, if there is one.
pub open spec fn artifact_refusal(
    verification: SourceVerification,
    byte_count: u64,
    now_ms: u64,
    deadline_ms: u64,
) -> Option<RuntimeHostError> {
    if now_ms >= deadline_ms {
        Some(source_refusal("saved_ocr_deadline_exceeded"))
    } else if verification.verified_bytes + byte_count > MAX_VERIFIED_SOURCE_BYTES {
        Some(source_refusal("saved_source_artifact_budget"))
    } else {
        None
    }
}

impl SourceVerification {
    pub fn new() -> (verification: Self)
        ensures
            verification == (SourceVerification { verified_bytes: 0, failure: None }),
    {
        SourceVerification { verified_bytes: 0, failure: None }
    }

    /// Asks whether an artifact may be read. What is refused leaves its error
    /// behind and takes no bytes of the budget.
    pub fn begin_artifact(&mut self, byte_count: u64, now_ms: u64, deadline_ms: u64) -> (read: bool)
        ensures
            match artifact_refusal(*old(self), byte_count, now_ms, deadline_ms) {
                Some(error) => !read && *final(self) == (SourceVerification {
                    failure: Some(error),
                    ..*old(self)
                }),
                None => read && *final(self) == (SourceVerification {
                    verified_bytes: (old(self).verified_bytes + byte_count) as u64,
                    ..*old(self)
                }),
            },
    {
        if let Err(error) = check_deadline(now_ms, deadline_ms) {
            self.failure = Some(error);
            return false;
        }
        match add_verified_bytes(self.verified_bytes, byte_count) {
            Ok(total) => {
                self.verified_bytes = total;
                true
            },
            Err(error) => {
                self.failure = Some(error);
                false
            },
        }
    }

    /// An artifact that was read did not hold what its reference says.
    pub fn artifact_failed(&mut self, code: &'static str)
        ensures
            *final(self) == (SourceVerification {
                failure: Some(source_refusal(code)),
                ..*old(self)
            }),
    {
        self.failure = Some(source_error(code));
    }
}

/// The next thing to do for a request to recognise a saved artifact.
#[derive(Debug, Clone, Copy, PartialEq, Eq, Structural)]
pub enum RecognitionAction {
    AppendRequested,
    ResolveSourceRoot,
    ResolveSourceLedger,
    ResolveTargetLedger,
    OpenSourceLock,
    LockSource,
    OpenEvidence,
    ReadImage,
    OpenPackage,
    ReadPackage,
    ParsePackageHash,
    FindProvider,
    LoadBundle,
    Evaluate,
    EncodeReport,
    StoreReport,
    AppendCompleted,
    AppendFailed,
    RecordFailure,
}

/// What an action gave.
#[derive(Debug)]
pub enum RecognitionReply {
    /// It succeeded, at this time.
    Done { now_ms: u64 },
    /// The path of a ledger.
    Ledger { path: Vec<u8> },
    /// The source's ledger was read, and its artifacts verified.
    Evidence {
        ledger: SourceLedger,
        events: Vec<SourceEvent>,
        verification: SourceVerification,
        now_ms: u64,
    },
    /// The package was read up to one byte past its limit.
    Package { byte_count: u64 },
    /// The report was stored; whether its verification was recorded.
    Stored { verified: bool },
    /// It failed with an error of its own kind, which has this code.
    Failed { code: &'static str },
    /// It failed with an error of the host.
    HostFailed { error: RuntimeHostError },
}

/// What a recognition is asked to do and held to.
#[derive(Debug)]
pub struct RecognitionTask {
    pub source: SavedArtifactSource,
    pub through_sequence: u64,
    pub deadline_ms: u64,
    pub max_package_bytes: u64,
    /// Paths that differ in the case of letters name one file.
    pub ignore_case: bool,
}

/// The positions that the request names lie in a ledger, whose first event
/// has the sequence one.
pub open spec fn recognition_task_wf(task: RecognitionTask) -> bool {
    &&& task.source.created.sequence > 0
    &&& task.source.verified.sequence > 0
    &&& task.source.captured.sequence > 0
}

/// How a recognition ends.
#[derive(Debug, Clone, Copy)]
pub enum RecognitionEnd {
    /// The frame of these dimensions was recognised.
    Recognized { width: u32, height: u32 },
    /// The request is answered with this error; the failure is recorded.
    Refused { error: RuntimeHostError },
    /// The host stops with this error; whether the failure is recorded.
    Poisoned { error: RuntimeHostError, recorded: bool },
    /// An event could not be appended.
    NotAppended { error: RuntimeHostError },
}

/// A recognition in progress.
#[derive(Debug)]
pub struct ArtifactRecognition {
    pub action: RecognitionAction,
    /// The resolved ledger of the source.
    pub source_ledger: Vec<u8>,
    /// The dimensions of the proved frame.
    pub dimensions: Option<(u32, u32)>,
    /// The failure that is being recorded.
    pub failure: Option<RuntimeHostError>,
}

#[verifier::ext_equal]
pub struct ArtifactRecognitionView {
    pub action: RecognitionAction,
    pub source_ledger: Seq<u8>,
    pub dimensions: Option<(u32, u32)>,
    pub failure: Option<RuntimeHostError>,
}

impl View for ArtifactRecognition {
    type V = ArtifactRecognitionView;

    open spec fn view(&self) -> ArtifactRecognitionView {
        ArtifactRecognitionView {
            action: self.action,
            source_ledger: self.source_ledger@,
            dimensions: self.dimensions,
            failure: self.failure,
        }
    }
}

/// A recognition that goes on, or its end.
#[derive(Debug)]
pub enum RecognitionProgress {
    Next(ArtifactRecognition),
    End(RecognitionEnd),
}

pub enum RecognitionProgressView {
    Next(ArtifactRecognitionView),
    End(RecognitionEnd),
}

impl View for RecognitionProgress {
    type V = RecognitionProgressView;

    open spec fn view(&self) -> RecognitionProgressView {
        match *self {
            RecognitionProgress::Next(recognition) => RecognitionProgressView::Next(recognition@),
            RecognitionProgress::End(end) => RecognitionProgressView::End(end),
        }
    }
}

/// The failure is known while it is recorded and only then, and the
/// dimensions are known once the source was proved.
pub open spec fn recognition_wf(recognition: ArtifactRecognitionView) -> bool {
    match recognition.action {
        RecognitionAction::AppendFailed
        | RecognitionAction::RecordFailure => recognition.failure is Some,
        RecognitionAction::ReadImage
        | RecognitionAction::OpenPackage
        | RecognitionAction::ReadPackage
        | RecognitionAction::ParsePackageHash
        | RecognitionAction::FindProvider
        | RecognitionAction::LoadBundle
        | RecognitionAction::Evaluate
        | RecognitionAction::EncodeReport
        | RecognitionAction::StoreReport
        | RecognitionAction::AppendCompleted => recognition.failure is None
            && recognition.dimensions is Some,
        _ => recognition.failure is None && recognition.dimensions is None,
    }
}

/// The reply answers the action.
pub open spec fn recognition_reply_fits(action: RecognitionAction, reply: RecognitionReply) -> bool {
    match action {
        RecognitionAction::AppendRequested
        | RecognitionAction::AppendCompleted
        | RecognitionAction::AppendFailed
        | RecognitionAction::RecordFailure => reply is Done || reply is HostFailed,
        RecognitionAction::ResolveSourceLedger
        | RecognitionAction::ResolveTargetLedger => reply is Ledger || reply is Failed,
        RecognitionAction::OpenEvidence => reply is Evidence || reply is Failed,
        RecognitionAction::ReadPackage => reply is Package || reply is Failed,
        RecognitionAction::StoreReport => reply is Stored || reply is HostFailed,
        _ => reply is Done || reply is Failed,
    }
}

/// The code under which the failure of an action is answered.
pub open spec fn recognition_failure_code(
    action: RecognitionAction,
    code: &'static str,
) -> &'static str {
    match action {
        RecognitionAction::ResolveSourceRoot => "saved_source_root_unavailable",
        RecognitionAction::ResolveSourceLedger => "saved_source_ledger_unavailable",
        RecognitionAction::ResolveTargetLedger => "saved_target_ledger_unavailable",
        RecognitionAction::OpenSourceLock => "saved_source_lock_unavailable",
        RecognitionAction::LockSource => "saved_source_not_frozen",
        RecognitionAction::OpenPackage => "saved_ocr_package_open_failed",
        RecognitionAction::ReadPackage => "saved_ocr_package_read_failed",
        RecognitionAction::ParsePackageHash => "saved_ocr_package_hash_invalid",
        RecognitionAction::FindProvider => "saved_ocr_provider_unavailable",
        RecognitionAction::LoadBundle => "saved_ocr_package_invalid",
        RecognitionAction::Evaluate => "saved_ocr_evaluation_failed",
        RecognitionAction::EncodeReport => "saved_ocr_serialization_failed",
        _ => code,
    }
}

/// The dimensions of the frame, once the ledger was read; the first refusal
/// otherwise.
pub open spec fn evidence_verdict(
    task: RecognitionTask,
    ledger: SourceLedger,
    events: Seq<SourceEvent>,
    verification: SourceVerification,
    now_ms: u64,
) -> Result<(u32, u32), RuntimeHostError> {
    if verification.failure is Some {
        Err(verification.failure->0)
    } else if !source_frozen(ledger, task.through_sequence) {
        Err(source_refusal("saved_source_incomplete"))
    } else {
        match source_proof(events, task.source) {
            Err(error) => Err(error),
            Ok(index) => match events[index].frame {
                None => Err(source_refusal("saved_source_capture_invalid")),
                Some(dimensions) => if now_ms >= task.deadline_ms {
                    Err(source_refusal("saved_ocr_deadline_exceeded"))
                } else {
                    Ok(dimensions)
                },
            },
        }
    }
}

/// What follows a step that may only be left before the deadline.
pub open spec fn in_time(
    recognition: ArtifactRecognitionView,
    task: RecognitionTask,
    now_ms: u64,
    action: RecognitionAction,
) -> Result<ArtifactRecognitionView, RuntimeHostError> {
    if now_ms >= task.deadline_ms {
        Err(source_refusal("saved_ocr_deadline_exceeded"))
    } else {
        Ok(ArtifactRecognitionView { action, ..recognition })
    }
}

/// What follows a step of the recognition itself: the next step, or the
/// failure that is to be recorded.
pub open spec fn recognition_work(
    recognition: ArtifactRecognitionView,
    task: RecognitionTask,
    reply: RecognitionReply,
) -> Result<ArtifactRecognitionView, RuntimeHostError> {
    let next = |action: RecognitionAction|
        Ok::<_, RuntimeHostError>(ArtifactRecognitionView { action, ..recognition });
    match reply {
        RecognitionReply::Failed { code } => Err(
            source_refusal(recognition_failure_code(recognition.action, code)),
        ),
        RecognitionReply::HostFailed { error } => Err(error),
        RecognitionReply::Ledger { path } => if recognition.action
            == RecognitionAction::ResolveSourceLedger {
            Ok(
                ArtifactRecognitionView {
                    action: RecognitionAction::ResolveTargetLedger,
                    source_ledger: path@,
                    ..recognition
                },
            )
        } else if same_path(recognition.source_ledger, path@, task.ignore_case) {
            Err(source_refusal("saved_source_is_target"))
        } else {
            next(RecognitionAction::OpenSourceLock)
        },
        RecognitionReply::Evidence { ledger, events, verification, now_ms } => match evidence_verdict(
            task,
            ledger,
            events@,
            verification,
            now_ms,
        ) {
            Err(error) => Err(error),
            Ok(dimensions) => Ok(
                ArtifactRecognitionView {
                    action: RecognitionAction::ReadImage,
                    dimensions: Some(dimensions),
                    ..recognition
                },
            ),
        },
        RecognitionReply::Package { byte_count } => if byte_count > task.max_package_bytes {
            Err(source_refusal("saved_ocr_package_limit"))
        } else {
            next(RecognitionAction::ParsePackageHash)
        },
        RecognitionReply::Stored { verified } => if verified {
            next(RecognitionAction::AppendCompleted)
        } else {
            Err(source_refusal("saved_ocr_verified_event_missing"))
        },
        RecognitionReply::Done { now_ms } => match recognition.action {
            RecognitionAction::ResolveSourceRoot => next(RecognitionAction::ResolveSourceLedger),
            RecognitionAction::OpenSourceLock => next(RecognitionAction::LockSource),
            RecognitionAction::LockSource => in_time(
                recognition,
                task,
                now_ms,
                RecognitionAction::OpenEvidence,
            ),
            RecognitionAction::ReadImage => next(RecognitionAction::OpenPackage),
            RecognitionAction::OpenPackage => next(RecognitionAction::ReadPackage),
            RecognitionAction::ParsePackageHash => next(RecognitionAction::FindProvider),
            RecognitionAction::FindProvider => next(RecognitionAction::LoadBundle),
            RecognitionAction::LoadBundle => in_time(
                recognition,
                task,
                now_ms,
                RecognitionAction::Evaluate,
            ),
            RecognitionAction::Evaluate => in_time(
                recognition,
                task,
                now_ms,
                RecognitionAction::EncodeReport,
            ),
            _ => next(RecognitionAction::StoreReport),
        },
    }
}

/// The step after a reply.
pub open spec fn recognition_step(
    recognition: ArtifactRecognitionView,
    task: RecognitionTask,
    reply: RecognitionReply,
) -> RecognitionProgressView {
    match recognition.action {
        RecognitionAction::AppendRequested => match reply {
            RecognitionReply::HostFailed { error } => RecognitionProgressView::End(
                RecognitionEnd::NotAppended { error },
            ),
            _ => RecognitionProgressView::Next(
                ArtifactRecognitionView {
                    action: RecognitionAction::ResolveSourceRoot,
                    ..recognition
                },
            ),
        },
        RecognitionAction::AppendFailed => match reply {
            RecognitionReply::HostFailed { error } => RecognitionProgressView::End(
                RecognitionEnd::NotAppended { error },
            ),
            _ => RecognitionProgressView::Next(
                ArtifactRecognitionView { action: RecognitionAction::RecordFailure, ..recognition },
            ),
        },
        RecognitionAction::RecordFailure => match (reply, recognition.failure) {
            (RecognitionReply::HostFailed { error }, _) => RecognitionProgressView::End(
                RecognitionEnd::Poisoned { error, recorded: false },
            ),
            (_, Some(error)) if error.fatal => RecognitionProgressView::End(
                RecognitionEnd::Poisoned { error, recorded: true },
            ),
            (_, failure) => RecognitionProgressView::End(
                RecognitionEnd::Refused { error: failure->0 },
            ),
        },
        RecognitionAction::AppendCompleted if reply is Done => RecognitionProgressView::End(
            RecognitionEnd::Recognized {
                width: (recognition.dimensions->0).0,
                height: (recognition.dimensions->0).1,
            },
        ),
        _ => match recognition_work(recognition, task, reply) {
            Ok(next) => RecognitionProgressView::Next(next),
            Err(error) => RecognitionProgressView::Next(
                ArtifactRecognitionView {
                    action: RecognitionAction::AppendFailed,
                    failure: Some(error),
                    ..recognition
                },
            ),
        },
    }
}

fn decide_evidence(
    task: &RecognitionTask,
    ledger: &SourceLedger,
    events: &Vec<SourceEvent>,
    verification: SourceVerification,
    now_ms: u64,
) -> (result: RuntimeHostResult<(u32, u32)>)
    requires
        recognition_task_wf(*task),
    ensures
        result == evidence_verdict(*task, *ledger, events@, verification, now_ms),
{
    if let Some(error) = verification.failure {
        return Err(error);
    }
    check_source_frozen(ledger, task.through_sequence)?;
    let captured = prove_source(events, &task.source)?;
    let dimensions = captured_dimensions(&events[captured])?;
    check_deadline(now_ms, task.deadline_ms)?;
    Ok(dimensions)
}

fn failure_code(action: RecognitionAction, code: &'static str) -> (answered: &'static str)
    ensures
        answered == recognition_failure_code(action, code),
{
    match action {
        RecognitionAction::ResolveSourceRoot => "saved_source_root_unavailable",
        RecognitionAction::ResolveSourceLedger => "saved_source_ledger_unavailable",
        RecognitionAction::ResolveTargetLedger => "saved_target_ledger_unavailable",
        RecognitionAction::OpenSourceLock => "saved_source_lock_unavailable",
        RecognitionAction::LockSource => "saved_source_not_frozen",
        RecognitionAction::OpenPackage => "saved_ocr_package_open_failed",
        RecognitionAction::ReadPackage => "saved_ocr_package_read_failed",
        RecognitionAction::ParsePackageHash => "saved_ocr_package_hash_invalid",
        RecognitionAction::FindProvider => "saved_ocr_provider_unavailable",
        RecognitionAction::LoadBundle => "saved_ocr_package_invalid",
        RecognitionAction::Evaluate => "saved_ocr_evaluation_failed",
        RecognitionAction::EncodeReport => "saved_ocr_serialization_failed",
        _ => code,
    }
}

impl ArtifactRecognition {
    pub fn new() -> (recognition: Self)
        ensures
            recognition_wf(recognition@),
            recognition@ == (ArtifactRecognitionView {
                action: RecognitionAction::AppendRequested,
                source_ledger: Seq::empty(),
                dimensions: None,
                failure: None,
            }),
    {
        let recognition = ArtifactRecognition {
            action: RecognitionAction::AppendRequested,
            source_ledger: Vec::new(),
            dimensions: None,
            failure: None,
        };
        assert(recognition@.source_ledger =~= Seq::<u8>::empty());
        recognition
    }

    /// Does the work of one step in place: the action is the next one, or the
    /// failure is given back and only the action's own data may have changed.
    fn work(self, task: &RecognitionTask, reply: RecognitionReply) -> (result: Result<
        ArtifactRecognition,
        (ArtifactRecognition, RuntimeHostError),
    >)
        requires
            recognition_task_wf(*task),
        ensures
            match recognition_work(self@, *task, reply) {
                Ok(next) => result matches Ok(found) && found@ == next,
                Err(error) => result matches Err((found, given)) && given == error && found@
                    == self@,
            },
    {
        let mut recognition = self;
        let action = match reply {
            RecognitionReply::Failed { code } => {
                let answered = failure_code(recognition.action, code);
                return Err((recognition, source_error(answered)));
            },
            RecognitionReply::HostFailed { error } => {
                return Err((recognition, error));
            },
            RecognitionReply::Ledger { path } => {
                if recognition.action == RecognitionAction::ResolveSourceLedger {
                    recognition.source_ledger = path;
                    RecognitionAction::ResolveTargetLedger
                } else {
                    match check_source_root(&recognition.source_ledger, &path, task.ignore_case) {
                        Ok(()) => RecognitionAction::OpenSourceLock,
                        Err(error) => return Err((recognition, error)),
                    }
                }
            },
            RecognitionReply::Evidence { ledger, events, verification, now_ms } => {
                match decide_evidence(task, &ledger, &events, verification, now_ms) {
                    Ok(dimensions) => {
                        recognition.dimensions = Some(dimensions);
                        RecognitionAction::ReadImage
                    },
                    Err(error) => return Err((recognition, error)),
                }
            },
            RecognitionReply::Package { byte_count } => match check_package_size(
                byte_count,
                task.max_package_bytes,
            ) {
                Ok(()) => RecognitionAction::ParsePackageHash,
                Err(error) => return Err((recognition, error)),
            },
            RecognitionReply::Stored { verified } => if verified {
                RecognitionAction::AppendCompleted
            } else {
                return Err((recognition, source_error("saved_ocr_verified_event_missing")));
            },
            RecognitionReply::Done { now_ms } => {
                let late = match check_deadline(now_ms, task.deadline_ms) {
                    Ok(()) => None,
                    Err(error) => Some(error),
                };
                let (action, timed) = match recognition.action {
                    RecognitionAction::ResolveSourceRoot => (
                        RecognitionAction::ResolveSourceLedger,
                        false,
                    ),
                    RecognitionAction::OpenSourceLock => (RecognitionAction::LockSource, false),
                    RecognitionAction::LockSource => (RecognitionAction::OpenEvidence, true),
                    RecognitionAction::ReadImage => (RecognitionAction::OpenPackage, false),
                    RecognitionAction::OpenPackage => (RecognitionAction::ReadPackage, false),
                    RecognitionAction::ParsePackageHash => (RecognitionAction::FindProvider, false),
                    RecognitionAction::FindProvider => (RecognitionAction::LoadBundle, false),
                    RecognitionAction::LoadBundle => (RecognitionAction::Evaluate, true),
                    RecognitionAction::Evaluate => (RecognitionAction::EncodeReport, true),
                    _ => (RecognitionAction::StoreReport, false),
                };
                if timed {
                    if let Some(error) = late {
                        return Err((recognition, error));
                    }
                }
                action
            },
        };
        recognition.action = action;
        Ok(recognition)
    }

    /// Takes the reply to the current action.
    pub fn advance(self, task: &RecognitionTask, reply: RecognitionReply) -> (progress:
        RecognitionProgress)
        requires
            recognition_task_wf(*task),
            recognition_wf(self@),
            recognition_reply_fits(self.action, reply),
        ensures
            progress@ == recognition_step(self@, *task, reply),
            progress matches RecognitionProgress::Next(next) ==> recognition_wf(next@),
    {
        let mut recognition = self;
        match recognition.action {
            RecognitionAction::AppendRequested => match reply {
                RecognitionReply::HostFailed { error } => RecognitionProgress::End(
                    RecognitionEnd::NotAppended { error },
                ),
                _ => {
                    recognition.action = RecognitionAction::ResolveSourceRoot;
                    RecognitionProgress::Next(recognition)
                },
            },
            RecognitionAction::AppendFailed => match reply {
                RecognitionReply::HostFailed { error } => RecognitionProgress::End(
                    RecognitionEnd::NotAppended { error },
                ),
                _ => {
                    recognition.action = RecognitionAction::RecordFailure;
                    RecognitionProgress::Next(recognition)
                },
            },
            RecognitionAction::RecordFailure => {
                if let RecognitionReply::HostFailed { error } = reply {
                    return RecognitionProgress::End(
                        RecognitionEnd::Poisoned { error, recorded: false },
                    );
                }
                let error = recognition.failure.unwrap();
                if error.is_fatal() {
                    RecognitionProgress::End(RecognitionEnd::Poisoned { error, recorded: true })
                } else {
                    RecognitionProgress::End(RecognitionEnd::Refused { error })
                }
            },
            _ => {
                if let RecognitionAction::AppendCompleted = recognition.action {
                    if let RecognitionReply::Done { .. } = reply {
                        let (width, height) = recognition.dimensions.unwrap();
                        return RecognitionProgress::End(
                            RecognitionEnd::Recognized { width, height },
                        );
                    }
                }
                match recognition.work(task, reply) {
                    Ok(next) => RecognitionProgress::Next(next),
                    Err((stopped, error)) => {
                        let mut stopped = stopped;
                        stopped.action = RecognitionAction::AppendFailed;
                        stopped.failure = Some(error);
                        RecognitionProgress::Next(stopped)
                    },
                }
            },
        }
    }
}

/// A frame is read only from a source that is another state root, is frozen
/// and complete, and proves the frame by its own events, and only in time.
pub proof fn law_frame_is_read_from_proved_source(
    recognition: ArtifactRecognitionView,
    task: RecognitionTask,
    reply: RecognitionReply,
)
    requires
        recognition_wf(recognition),
        recognition_reply_fits(recognition.action, reply),
        recognition_step(recognition, task, reply) matches RecognitionProgressView::Next(next)
            && next.action == RecognitionAction::ReadImage,
    ensures
        recognition.action == RecognitionAction::OpenEvidence,
        reply matches RecognitionReply::Evidence { ledger, events, verification, now_ms } && {
            &&& verification.failure is None
            &&& source_frozen(ledger, task.through_sequence)
            &&& source_proof(events@, task.source) is Ok
            &&& now_ms < task.deadline_ms
        },
{
}

/// A source that is the target itself is never opened.
pub proof fn law_own_ledger_is_not_opened(
    recognition: ArtifactRecognitionView,
    task: RecognitionTask,
    reply: RecognitionReply,
)
    requires
        recognition_wf(recognition),
        recognition_reply_fits(recognition.action, reply),
        recognition_step(recognition, task, reply) matches RecognitionProgressView::Next(next)
            && next.action == RecognitionAction::OpenSourceLock,
    ensures
        recognition.action == RecognitionAction::ResolveTargetLedger,
        reply matches RecognitionReply::Ledger { path } && !same_path(
            recognition.source_ledger,
            path@,
            task.ignore_case,
        ),
{
}

/// A report is made only of an evaluation that ended in time, and a success
/// is recorded only of a report whose verification is recorded.
pub proof fn law_report_is_in_time_and_verified(
    recognition: ArtifactRecognitionView,
    task: RecognitionTask,
    reply: RecognitionReply,
)
    requires
        recognition_wf(recognition),
        recognition_reply_fits(recognition.action, reply),
    ensures
        recognition_step(recognition, task, reply) matches RecognitionProgressView::Next(next)
            && next.action == RecognitionAction::EncodeReport ==> recognition.action
            == RecognitionAction::Evaluate && (reply matches RecognitionReply::Done { now_ms }
            && now_ms < task.deadline_ms),
        recognition_step(recognition, task, reply) matches RecognitionProgressView::Next(next)
            && next.action == RecognitionAction::AppendCompleted ==> recognition.action
            == RecognitionAction::StoreReport && (reply matches RecognitionReply::Stored {
            verified,
        } && verified),
{
}

/// A recognition that fails once it was announced is answered only after its
/// failure was appended and recorded, or after that failed too.
pub proof fn law_failure_is_recorded(
    recognition: ArtifactRecognitionView,
    task: RecognitionTask,
    reply: RecognitionReply,
)
    requires
        recognition_wf(recognition),
        recognition_reply_fits(recognition.action, reply),
        recognition_step(recognition, task, reply) matches RecognitionProgressView::End(end) && (
        end is Refused || end is Poisoned),
    ensures
        recognition.action == RecognitionAction::RecordFailure,
        recognition_step(recognition, task, reply) matches RecognitionProgressView::End(end) ==> {
            match end {
                RecognitionEnd::Refused { error } => recognition.failure == Some(error)
                    && !error.fatal && reply is Done,
                RecognitionEnd::Poisoned { error, recorded } => if recorded {
                    recognition.failure == Some(error) && error.fatal && reply is Done
                } else {
                    reply == (RecognitionReply::HostFailed { error })
                },
                _ => false,
            }
        },
{
}

/// An artifact is verified before the deadline only, and while the bytes that
/// were verified stay within four gibibytes.
pub proof fn law_artifacts_stay_within_their_limits(
    verification: SourceVerification,
    byte_count: u64,
    now_ms: u64,
    deadline_ms: u64,
)
    ensures
        artifact_refusal(verification, byte_count, now_ms, deadline_ms) is None <==> now_ms
            < deadline_ms && verification.verified_bytes + byte_count <= 4 * 1024 * 1024 * 1024,
        artifact_refusal(verification, byte_count, now_ms, deadline_ms) matches Some(error)
            ==> !error.fatal && (now_ms >= deadline_ms <==> error.code
            == "saved_ocr_deadline_exceeded"),
{
    reveal_strlit("saved_ocr_deadline_exceeded");
    reveal_strlit("saved_source_artifact_budget");
    assert("saved_ocr_deadline_exceeded"@.len() != "saved_source_artifact_budget"@.len());
}

/// A saved artifact is recognised in order, each step after the one before it
/// worked.
pub proof fn law_recognition_is_made_in_order(
    recognition: ArtifactRecognitionView,
    task: RecognitionTask,
    now_ms: u64,
)
    requires
        now_ms < task.deadline_ms,
    ensures
        recognition.action == RecognitionAction::AppendRequested ==> recognition_step(
            recognition,
            task,
            RecognitionReply::Done { now_ms },
        ) == RecognitionProgressView::Next(
            ArtifactRecognitionView { action: RecognitionAction::ResolveSourceRoot, ..recognition },
        ),
        recognition.action == RecognitionAction::ResolveSourceRoot ==> recognition_step(
            recognition,
            task,
            RecognitionReply::Done { now_ms },
        ) == RecognitionProgressView::Next(
            ArtifactRecognitionView { action: RecognitionAction::ResolveSourceLedger, ..recognition },
        ),
        recognition.action == RecognitionAction::OpenSourceLock ==> recognition_step(
            recognition,
            task,
            RecognitionReply::Done { now_ms },
        ) == RecognitionProgressView::Next(
            ArtifactRecognitionView { action: RecognitionAction::LockSource, ..recognition },
        ),
        recognition.action == RecognitionAction::LockSource ==> recognition_step(
            recognition,
            task,
            RecognitionReply::Done { now_ms },
        ) == RecognitionProgressView::Next(
            ArtifactRecognitionView { action: RecognitionAction::OpenEvidence, ..recognition },
        ),
        recognition.action == RecognitionAction::ReadImage ==> recognition_step(
            recognition,
            task,
            RecognitionReply::Done { now_ms },
        ) == RecognitionProgressView::Next(
            ArtifactRecognitionView { action: RecognitionAction::OpenPackage, ..recognition },
        ),
        recognition.action == RecognitionAction::OpenPackage ==> recognition_step(
            recognition,
            task,
            RecognitionReply::Done { now_ms },
        ) == RecognitionProgressView::Next(
            ArtifactRecognitionView { action: RecognitionAction::ReadPackage, ..recognition },
        ),
        recognition.action == RecognitionAction::ParsePackageHash ==> recognition_step(
            recognition,
            task,
            RecognitionReply::Done { now_ms },
        ) == RecognitionProgressView::Next(
            ArtifactRecognitionView { action: RecognitionAction::FindProvider, ..recognition },
        ),
        recognition.action == RecognitionAction::FindProvider ==> recognition_step(
            recognition,
            task,
            RecognitionReply::Done { now_ms },
        ) == RecognitionProgressView::Next(
            ArtifactRecognitionView { action: RecognitionAction::LoadBundle, ..recognition },
        ),
        recognition.action == RecognitionAction::LoadBundle ==> recognition_step(
            recognition,
            task,
            RecognitionReply::Done { now_ms },
        ) == RecognitionProgressView::Next(
            ArtifactRecognitionView { action: RecognitionAction::Evaluate, ..recognition },
        ),
        recognition.action == RecognitionAction::Evaluate ==> recognition_step(
            recognition,
            task,
            RecognitionReply::Done { now_ms },
        ) == RecognitionProgressView::Next(
            ArtifactRecognitionView { action: RecognitionAction::EncodeReport, ..recognition },
        ),
        recognition.action == RecognitionAction::EncodeReport ==> recognition_step(
            recognition,
            task,
            RecognitionReply::Done { now_ms },
        ) == RecognitionProgressView::Next(
            ArtifactRecognitionView { action: RecognitionAction::StoreReport, ..recognition },
        ),
        recognition.action == RecognitionAction::StoreReport ==> recognition_step(
            recognition,
            task,
            RecognitionReply::Stored { verified: true },
        ) == RecognitionProgressView::Next(
            ArtifactRecognitionView { action: RecognitionAction::AppendCompleted, ..recognition },
        ),
{
}

/// A package is taken up to its limit and no further.
pub proof fn law_large_packages_are_refused(
    recognition: ArtifactRecognitionView,
    task: RecognitionTask,
    byte_count: u64,
)
    requires
        recognition.action == RecognitionAction::ReadPackage,
    ensures
        recognition_step(recognition, task, RecognitionReply::Package { byte_count }) matches RecognitionProgressView::Next(
            next,
        ) && (byte_count <= task.max_package_bytes <==> next.action
            == RecognitionAction::ParsePackageHash) && (byte_count > task.max_package_bytes
            <==> next.action == RecognitionAction::AppendFailed),
{
}

/// A step that is only over at the deadline fails the recognition.
pub proof fn law_late_steps_fail(
    recognition: ArtifactRecognitionView,
    task: RecognitionTask,
    now_ms: u64,
)
    requires
        now_ms >= task.deadline_ms,
        recognition.action == RecognitionAction::LockSource || recognition.action
            == RecognitionAction::LoadBundle || recognition.action == RecognitionAction::Evaluate,
    ensures
        recognition_step(recognition, task, RecognitionReply::Done { now_ms }) matches RecognitionProgressView::Next(
            next,
        ) && next.action == RecognitionAction::AppendFailed && (next.failure matches Some(error)
            && error.code == "saved_ocr_deadline_exceeded" && !error.fatal),
{
}

/// A recorded failure is answered with itself, and stops the host exactly when
/// it is fatal; a failure that could not be recorded stops the host.
pub proof fn law_recorded_failure_is_answered(
    recognition: ArtifactRecognitionView,
    task: RecognitionTask,
    failure: RuntimeHostError,
    error: RuntimeHostError,
    now_ms: u64,
)
    requires
        recognition.action == RecognitionAction::RecordFailure,
        recognition.failure == Some(failure),
    ensures
        failure.fatal ==> recognition_step(recognition, task, RecognitionReply::Done { now_ms })
            == RecognitionProgressView::End(
            RecognitionEnd::Poisoned { error: failure, recorded: true },
        ),
        !failure.fatal ==> recognition_step(recognition, task, RecognitionReply::Done { now_ms })
            == RecognitionProgressView::End(RecognitionEnd::Refused { error: failure }),
        recognition_step(recognition, task, RecognitionReply::HostFailed { error })
            == RecognitionProgressView::End(RecognitionEnd::Poisoned { error, recorded: false }),
{
}

/// A frame's size is told exactly when everything was verified, the source is
/// frozen, its observation is proved, the frame is there and the deadline has
/// not come.
pub proof fn law_frame_size_needs_whole_evidence(
    task: RecognitionTask,
    ledger: SourceLedger,
    events: Seq<SourceEvent>,
    verification: SourceVerification,
    now_ms: u64,
)
    ensures
        evidence_verdict(task, ledger, events, verification, now_ms) is Ok
            <==> verification.failure is None && !ledger.corrupt_tail && ledger.read_complete
            && ledger.writer_active == Some(false) && task.through_sequence
            <= ledger.latest_sequence && (source_proof(events, task.source) matches Ok(index)
            && events[index].frame is Some) && now_ms < task.deadline_ms,
        evidence_verdict(task, ledger, events, verification, now_ms) matches Ok(dimensions) ==> (
        source_proof(events, task.source) matches Ok(index) && events[index].frame == Some(
            dimensions,
        )),
{
}

} // verus!
