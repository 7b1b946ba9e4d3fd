//! The course of diagnostic signature requests, and how they fail.

use vstd::prelude::*;

use crate::error::{request_error, RuntimeErrorCode, RuntimeHostError};

verus! {

/// A request that failed: its error, and whether the host stops with it.
#[derive(Debug, Clone, Copy)]
pub struct RequestFailure {
    pub error: RuntimeHostError,
    /// The request is answered as denied.
    pub denied: bool,
    pub poison_runtime: bool,
}

/// The refusal of a signature request.
pub open spec fn signature_refusal(code: &'static str) -> RequestFailure {
    RequestFailure {
        error: request_error(code, "diagnostic_signatures", RuntimeErrorCode::InvalidRequest),
        denied: true,
        poison_runtime: false,
    }
}

pub fn signature_request_error(code: &'static str) -> (failure: RequestFailure)
    ensures
        failure == signature_refusal(code),
{
    RequestFailure {
        error: RuntimeHostError::request(
            code,
            "diagnostic_signatures",
            RuntimeErrorCode::InvalidRequest,
        ),
        denied: true,
        poison_runtime: false,
    }
}

/// A ledger error during a signature request: a fatal one stops the host with
/// `stop`, any other denies the request with the ledger's code.
pub fn signature_ledger_error(code: &'static str, fatal: bool, stop: RuntimeHostError) -> (failure:
    RequestFailure)
    ensures
        !fatal ==> failure == signature_refusal(code),
        fatal ==> failure == (RequestFailure { error: stop, denied: false, poison_runtime: true }),
{
    if fatal {
        RequestFailure { error: stop, denied: false, poison_runtime: true }
    } else {
        signature_request_error(code)
    }
}

/// What is asked for.
#[derive(Debug, Clone, Copy, PartialEq, Eq, Structural)]
pub enum SignatureTask {
    Register,
    Retire,
    /// Match the signatures that the ledger holds up to a sequence against the
    /// events that another state root holds up to one.
    Match { catalog_through: u64, input_through: u64 },
}

/// How severe the event of a request is.
#[derive(Debug, Clone, Copy, PartialEq, Eq, Structural)]
pub enum SignatureSeverity {
    Info,
    Warning,
}

/// The next thing to do.
#[derive(Debug, Clone, Copy, PartialEq, Eq, Structural)]
pub enum SignatureAction {
    /// Keep other writers of signatures out.
    Exclude,
    /// Read the ledger's latest sequence.
    ReadLatest,
    /// Read the signatures that the ledger holds up to a sequence.
    ReadCatalog { through: u64 },
    /// Let the signatures say whether the change is valid.
    Validate,
    /// Open the state root whose events are matched.
    OpenInput,
    /// Read its events up to a sequence.
    ReadInput { through: u64 },
    /// Match the events.
    Replay,
    Append(SignatureSeverity),
}

/// What an action gave.
#[derive(Debug, Clone, Copy)]
pub enum SignatureReply {
    Done,
    /// A failure that is the answer as it stands.
    Failed(RequestFailure),
    /// The ledger failed; `stop` is the error that stops the host if it has to.
    LedgerFailed { code: &'static str, fatal: bool, stop: RuntimeHostError },
    /// The other state root cannot be read.
    InputFailed { code: &'static str },
    Latest(u64),
    /// Whether all evidence of the matches is there.
    Matched { evidence_complete: bool },
}

/// A request in progress.
#[derive(Debug, Clone, Copy)]
pub struct SignatureRequest {
    pub task: SignatureTask,
    pub action: SignatureAction,
}

/// A request that goes on, or its answer: done, and its event appended.
#[derive(Debug, Clone, Copy)]
pub enum SignatureProgress {
    Next(SignatureRequest),
    End(Result<(), RequestFailure>),
}

/// The first action of a request. Only a change keeps other writers out.
pub open spec fn first_action(task: SignatureTask) -> SignatureAction {
    match task {
        SignatureTask::Match { catalog_through, .. } => SignatureAction::ReadCatalog {
            through: catalog_through,
        },
        _ => SignatureAction::Exclude,
    }
}

pub open spec fn signature_wf(request: SignatureRequest) -> bool {
    match request.action {
        SignatureAction::Exclude
        | SignatureAction::ReadLatest
        | SignatureAction::Validate => !(request.task is Match),
        SignatureAction::OpenInput
        | SignatureAction::ReadInput { .. }
        | SignatureAction::Replay => request.task is Match,
        _ => true,
    }
}

/// The reply answers the action.
pub open spec fn signature_reply_fits(action: SignatureAction, reply: SignatureReply) -> bool {
    match action {
        SignatureAction::Exclude | SignatureAction::Append(_) => reply is Done || reply is Failed,
        SignatureAction::ReadLatest => reply is Latest || reply is LedgerFailed,
        SignatureAction::ReadCatalog { .. }
        | SignatureAction::Validate => reply is Done || reply is LedgerFailed,
        SignatureAction::OpenInput
        | SignatureAction::ReadInput { .. } => reply is Done || reply is InputFailed,
        SignatureAction::Replay => reply is Matched || reply is LedgerFailed,
    }
}

/// The failure of a request at which the ledger failed.
pub open spec fn ledger_failure(code: &'static str, fatal: bool, stop: RuntimeHostError) ->
    RequestFailure {
    if fatal {
        RequestFailure { error: stop, denied: false, poison_runtime: true }
    } else {
        signature_refusal(code)
    }
}

/// The step after a reply.
pub open spec fn signature_step(request: SignatureRequest, reply: SignatureReply) ->
    SignatureProgress {
    let next = |action: SignatureAction|
        SignatureProgress::Next(SignatureRequest { action, ..request });
    match reply {
        SignatureReply::Failed(failure) => SignatureProgress::End(Err(failure)),
        SignatureReply::LedgerFailed { code, fatal, stop } => SignatureProgress::End(
            Err(ledger_failure(code, fatal, stop)),
        ),
        SignatureReply::InputFailed { code } => SignatureProgress::End(
            Err(signature_refusal(code)),
        ),
        SignatureReply::Latest(through) => next(SignatureAction::ReadCatalog { through }),
        SignatureReply::Matched { evidence_complete } => next(
            SignatureAction::Append(
                if evidence_complete {
                    SignatureSeverity::Info
                } else {
                    SignatureSeverity::Warning
                },
            ),
        ),
        SignatureReply::Done => match (request.action, request.task) {
            (SignatureAction::Exclude, _) => next(SignatureAction::ReadLatest),
            (SignatureAction::ReadCatalog { .. }, SignatureTask::Match { .. }) => next(
                SignatureAction::OpenInput,
            ),
            (SignatureAction::ReadCatalog { .. }, _) => next(SignatureAction::Validate),
            (SignatureAction::Validate, _) => next(SignatureAction::Append(SignatureSeverity::Info)),
            (SignatureAction::OpenInput, SignatureTask::Match { input_through, .. }) => next(
                SignatureAction::ReadInput { through: input_through },
            ),
            (SignatureAction::ReadInput { .. }, _) => next(SignatureAction::Replay),
            _ => SignatureProgress::End(Ok(())),
        },
    }
}

impl SignatureRequest {
    pub fn new(task: SignatureTask) -> (request: Self)
        ensures
            signature_wf(request),
            request == (SignatureRequest { task, action: first_action(task) }),
    {
        let action = match task {
            SignatureTask::Match { catalog_through, .. } => SignatureAction::ReadCatalog {
                through: catalog_through,
            },
            _ => SignatureAction::Exclude,
        };
        SignatureRequest { task, action }
    }

    /// Takes the reply to the current action.
    pub fn advance(self, reply: SignatureReply) -> (progress: SignatureProgress)
        requires
            signature_wf(self),
            signature_reply_fits(self.action, reply),
        ensures
            progress == signature_step(self, reply),
            progress matches SignatureProgress::Next(next) ==> signature_wf(next),
    {
        let action = match reply {
            SignatureReply::Failed(failure) => {
                return SignatureProgress::End(Err(failure));
            },
            SignatureReply::LedgerFailed { code, fatal, stop } => {
                return SignatureProgress::End(Err(signature_ledger_error(code, fatal, stop)));
            },
            SignatureReply::InputFailed { code } => {
                return SignatureProgress::End(Err(signature_request_error(code)));
            },
            SignatureReply::Latest(through) => SignatureAction::ReadCatalog { through },
            SignatureReply::Matched { evidence_complete } => SignatureAction::Append(
                if evidence_complete {
                    SignatureSeverity::Info
                } else {
                    SignatureSeverity::Warning
                },
            ),
            SignatureReply::Done => match (self.action, self.task) {
                (SignatureAction::Exclude, _) => SignatureAction::ReadLatest,
                (SignatureAction::ReadCatalog { .. }, SignatureTask::Match { .. }) =>
                    SignatureAction::OpenInput,
                (SignatureAction::ReadCatalog { .. }, _) => SignatureAction::Validate,
                (SignatureAction::Validate, _) => SignatureAction::Append(SignatureSeverity::Info),
                (SignatureAction::OpenInput, SignatureTask::Match { input_through, .. }) =>
                    SignatureAction::ReadInput { through: input_through },
                (SignatureAction::ReadInput { .. }, _) => SignatureAction::Replay,
                _ => {
                    return SignatureProgress::End(Ok(()));
                },
            },
        };
        SignatureProgress::Next(SignatureRequest { task: self.task, action })
    }
}

/// A change of the signatures is appended only after the signatures that the
/// ledger then held said that it is valid, and matches only after the events
/// were matched; a request succeeds only once its event is appended.
pub proof fn law_signature_event_follows_its_check(request: SignatureRequest, reply: SignatureReply)
    requires
        signature_wf(request),
        signature_reply_fits(request.action, reply),
    ensures
        signature_step(request, reply) matches SignatureProgress::Next(next) ==> (next.action
            is Append ==> if request.task is Match {
            request.action == SignatureAction::Replay && reply is Matched
        } else {
            request.action == SignatureAction::Validate && reply is Done && next.action
                == SignatureAction::Append(SignatureSeverity::Info)
        }),
        signature_step(request, reply) == SignatureProgress::End(Ok(())) ==> request.action
            is Append && reply is Done,
{
}

/// A state root that cannot be read denies the request and never stops the
/// host; only a fatal failure of the host's own ledger does.
pub proof fn law_input_never_stops_the_host(request: SignatureRequest, reply: SignatureReply)
    requires
        signature_wf(request),
        signature_reply_fits(request.action, reply),
        !(reply is Failed),
    ensures
        signature_step(request, reply) matches SignatureProgress::End(Err(failure))
            && failure.poison_runtime ==> (reply matches SignatureReply::LedgerFailed {
            fatal,
            ..
        } && fatal),
{
}

/// A check or an entry of signatures is made on its own: it reads what the
/// ledger ends with, then the catalog up to there, and appends what was
/// validated.
pub proof fn law_signatures_are_entered_in_order(request: SignatureRequest, through: u64)
    requires
        !(request.task is Match),
    ensures
        first_action(request.task) == SignatureAction::Exclude,
        request.action == SignatureAction::Exclude ==> signature_step(request, SignatureReply::Done)
            == SignatureProgress::Next(
            SignatureRequest { action: SignatureAction::ReadLatest, ..request },
        ),
        request.action == SignatureAction::ReadLatest ==> signature_step(
            request,
            SignatureReply::Latest(through),
        ) == SignatureProgress::Next(
            SignatureRequest { action: SignatureAction::ReadCatalog { through }, ..request },
        ),
        request.action == (SignatureAction::ReadCatalog { through }) ==> signature_step(
            request,
            SignatureReply::Done,
        ) == SignatureProgress::Next(
            SignatureRequest { action: SignatureAction::Validate, ..request },
        ),
        request.action == SignatureAction::Validate ==> signature_step(request, SignatureReply::Done)
            == SignatureProgress::Next(
            SignatureRequest { action: SignatureAction::Append(SignatureSeverity::Info), ..request },
        ),
{
}

/// A match reads the catalog up to the sequence asked for, then its input up to
/// the sequence asked for there, and is told as a warning when its evidence is
/// incomplete.
pub proof fn law_matches_are_made_in_order(
    request: SignatureRequest,
    catalog_through: u64,
    input_through: u64,
    through: u64,
)
    requires
        request.task == (SignatureTask::Match { catalog_through, input_through }),
    ensures
        first_action(request.task) == (SignatureAction::ReadCatalog { through: catalog_through }),
        request.action == (SignatureAction::ReadCatalog { through }) ==> signature_step(
            request,
            SignatureReply::Done,
        ) == SignatureProgress::Next(
            SignatureRequest { action: SignatureAction::OpenInput, ..request },
        ),
        request.action == SignatureAction::OpenInput ==> signature_step(
            request,
            SignatureReply::Done,
        ) == SignatureProgress::Next(
            SignatureRequest {
                action: SignatureAction::ReadInput { through: input_through },
                ..request
            },
        ),
        request.action == (SignatureAction::ReadInput { through }) ==> signature_step(
            request,
            SignatureReply::Done,
        ) == SignatureProgress::Next(
            SignatureRequest { action: SignatureAction::Replay, ..request },
        ),
        signature_step(request, SignatureReply::Matched { evidence_complete: true })
            == SignatureProgress::Next(
            SignatureRequest { action: SignatureAction::Append(SignatureSeverity::Info), ..request },
        ),
        signature_step(request, SignatureReply::Matched { evidence_complete: false })
            == SignatureProgress::Next(
            SignatureRequest {
                action: SignatureAction::Append(SignatureSeverity::Warning),
                ..request
            },
        ),
{
}

/// A failure of the ledger is a refusal of the request, unless it is fatal:
/// then it stops the host and is told as it came.
pub proof fn law_ledger_failure_is_told(
    request: SignatureRequest,
    code: &'static str,
    fatal: bool,
    stop: RuntimeHostError,
)
    ensures
        signature_step(request, SignatureReply::LedgerFailed { code, fatal, stop }) matches SignatureProgress::End(
            Err(failure),
        ) && (failure.poison_runtime <==> fatal) && (failure.denied <==> !fatal) && (fatal
            ==> failure.error == stop) && (!fatal ==> failure.error.code == code
            && !failure.error.fatal),
        signature_step(request, SignatureReply::InputFailed { code }) matches SignatureProgress::End(
            Err(failure),
        ) && failure.denied && !failure.poison_runtime && failure.error.code == code,
{
}

} // verus!
