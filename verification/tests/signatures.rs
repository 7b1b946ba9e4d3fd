//! Signature requests from their first step to their last.

use runtime_host::error::{RuntimeErrorCode, RuntimeHostError};
use runtime_host::signatures::{
    RequestFailure, SignatureAction, SignatureProgress, SignatureReply, SignatureRequest,
    SignatureSeverity, SignatureTask,
};

fn reply(action: SignatureAction) -> SignatureReply {
    match action {
        SignatureAction::ReadLatest => SignatureReply::Latest(7),
        SignatureAction::Replay => SignatureReply::Matched { evidence_complete: false },
        _ => SignatureReply::Done,
    }
}

fn run(
    task: SignatureTask,
    at: impl Fn(SignatureAction) -> Option<SignatureReply>,
) -> (Vec<SignatureAction>, Result<(), RequestFailure>) {
    let mut request = SignatureRequest::new(task);
    let mut trace = Vec::new();
    loop {
        let action = request.action;
        trace.push(action);
        let reply = match at(action) {
            Some(reply) => reply,
            None => reply(action),
        };
        match request.advance(reply) {
            SignatureProgress::Next(next) => request = next,
            SignatureProgress::End(end) => return (trace, end),
        }
    }
}

#[test]
fn a_signature_is_appended_once_the_ledger_admits_it() {
    for task in [SignatureTask::Register, SignatureTask::Retire] {
        let (trace, end) = run(task, |_| None);
        assert!(end.is_ok());
        assert_eq!(
            trace,
            [
                SignatureAction::Exclude,
                SignatureAction::ReadLatest,
                SignatureAction::ReadCatalog { through: 7 },
                SignatureAction::Validate,
                SignatureAction::Append(SignatureSeverity::Info),
            ]
        );
    }
}

#[test]
fn incomplete_evidence_is_appended_as_a_warning() {
    let task = SignatureTask::Match { catalog_through: 3, input_through: 4 };
    let (trace, end) = run(task, |_| None);
    assert!(end.is_ok());
    assert_eq!(
        trace,
        [
            SignatureAction::ReadCatalog { through: 3 },
            SignatureAction::OpenInput,
            SignatureAction::ReadInput { through: 4 },
            SignatureAction::Replay,
            SignatureAction::Append(SignatureSeverity::Warning),
        ]
    );
    let (trace, _) = run(task, |action| match action {
        SignatureAction::Replay => Some(SignatureReply::Matched { evidence_complete: true }),
        _ => None,
    });
    assert_eq!(trace.last(), Some(&SignatureAction::Append(SignatureSeverity::Info)));
}

#[test]
fn a_refused_signature_is_not_appended() {
    let stop = RuntimeHostError::fatal("ledger_failed", "stop", RuntimeErrorCode::LedgerFailure);
    for fatal in [false, true] {
        let (trace, end) = run(SignatureTask::Register, |action| match action {
            SignatureAction::Validate => {
                Some(SignatureReply::LedgerFailed { code: "signature_known", fatal, stop })
            }
            _ => None,
        });
        assert_eq!(trace.last(), Some(&SignatureAction::Validate));
        let failure = end.expect_err("refused");
        assert_eq!(failure.poison_runtime, fatal);
        assert_eq!(failure.denied, !fatal);
        let code = if fatal { "ledger_failed" } else { "signature_known" };
        assert_eq!(failure.error.code(), code);
    }
    let task = SignatureTask::Match { catalog_through: 3, input_through: 4 };
    let (_, end) = run(task, |action| match action {
        SignatureAction::OpenInput => Some(SignatureReply::InputFailed { code: "root_missing" }),
        _ => None,
    });
    let failure = end.expect_err("denied");
    assert!(failure.denied && !failure.poison_runtime);
    assert_eq!(failure.error.code(), "root_missing");
}
