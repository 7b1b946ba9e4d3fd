//! The error type every rule of the host answers with.

use vstd::prelude::*;

verus! {

/// The class of an error as a client of the host sees it.
#[derive(Debug, Clone, Copy, PartialEq, Eq, Structural)]
pub enum RuntimeErrorCode {
    InvalidRequest,
    ProtocolInvalid,
    InstanceUnknown,
    OwnerConflict,
    LedgerFailure,
    RuntimeFatal,
}

/// A refusal or a failure: a stable code, the operation that gave it, the
/// class a client sees, and whether the host must stop because of it.
#[derive(Debug, Clone, Copy)]
pub struct RuntimeHostError {
    pub code: &'static str,
    pub operation: &'static str,
    pub projection: RuntimeErrorCode,
    pub fatal: bool,
}

pub type RuntimeHostResult<T> = Result<T, RuntimeHostError>;

/// The error that `RuntimeHostError::fatal` builds.
pub open spec fn fatal_error(
    code: &'static str,
    operation: &'static str,
    projection: RuntimeErrorCode,
) -> RuntimeHostError {
    RuntimeHostError { code, operation, projection, fatal: true }
}

/// The error that `RuntimeHostError::request` builds.
pub open spec fn request_error(
    code: &'static str,
    operation: &'static str,
    projection: RuntimeErrorCode,
) -> RuntimeHostError {
    RuntimeHostError { code, operation, projection, fatal: false }
}

impl RuntimeHostError {
    /// An error after which the host must not go on.
    pub fn fatal(
        code: &'static str,
        operation: &'static str,
        projection: RuntimeErrorCode,
    ) -> (error: Self)
        ensures
            error == fatal_error(code, operation, projection),
    {
        RuntimeHostError { code, operation, projection, fatal: true }
    }

    /// A refusal of one request; the host goes on.
    pub fn request(
        code: &'static str,
        operation: &'static str,
        projection: RuntimeErrorCode,
    ) -> (error: Self)
        ensures
            error == request_error(code, operation, projection),
    {
        RuntimeHostError { code, operation, projection, fatal: false }
    }

    pub fn code(&self) -> (code: &'static str)
        ensures
            code == self.code,
    {
        self.code
    }

    pub fn operation(&self) -> (operation: &'static str)
        ensures
            operation == self.operation,
    {
        self.operation
    }

    pub fn is_fatal(&self) -> (fatal: bool)
        ensures
            fatal == self.fatal,
    {
        self.fatal
    }

    /// The same error, made fatal.
    pub fn into_fatal(self) -> (error: Self)
        ensures
            error == (RuntimeHostError { fatal: true, ..self }),
    {
        RuntimeHostError {
            code: self.code,
            operation: self.operation,
            projection: self.projection,
            fatal: true,
        }
    }
}

/// A failure that came with another one, and where it came.
#[derive(Debug, Clone, Copy)]
pub struct RelatedFailure {
    pub stage: &'static str,
    pub error: RuntimeHostError,
}

/// An error with what is known of its cause: a detail in words, and a failure
/// that came with it.
#[derive(Debug, Clone)]
pub struct DetailedError {
    pub error: RuntimeHostError,
    pub native_detail: Option<String>,
    pub related: Option<RelatedFailure>,
}

/// The value of an error with its cause.
pub struct DetailedErrorView {
    pub error: RuntimeHostError,
    pub native_detail: Option<Seq<char>>,
    pub related: Option<RelatedFailure>,
}

impl View for DetailedError {
    type V = DetailedErrorView;

    open spec fn view(&self) -> DetailedErrorView {
        DetailedErrorView {
            error: self.error,
            native_detail: match self.native_detail {
                Some(detail) => Some(detail@),
                None => None,
            },
            related: self.related,
        }
    }
}

/// An error of whose cause nothing is known.
pub open spec fn plain_error(error: RuntimeHostError) -> DetailedErrorView {
    DetailedErrorView { error, native_detail: None, related: None }
}

impl DetailedError {
    pub fn plain(error: RuntimeHostError) -> (detailed: Self)
        ensures
            detailed@ == plain_error(error),
    {
        DetailedError { error, native_detail: None, related: None }
    }

    /// The error with its cause in words.
    pub fn with_native_detail(self, detail: String) -> (detailed: Self)
        ensures
            detailed@ == (DetailedErrorView { native_detail: Some(detail@), ..self@ }),
    {
        DetailedError { error: self.error, native_detail: Some(detail), related: self.related }
    }

    /// The error with a failure that came with it.
    pub fn with_related_failure(self, stage: &'static str, error: RuntimeHostError) -> (detailed:
        Self)
        ensures
            detailed@ == (DetailedErrorView {
                related: Some(RelatedFailure { stage, error }),
                ..self@
            }),
    {
        DetailedError {
            error: self.error,
            native_detail: self.native_detail,
            related: Some(RelatedFailure { stage, error }),
        }
    }

    pub fn code(&self) -> (code: &'static str)
        ensures
            code == self.error.code,
    {
        self.error.code
    }

    pub fn is_fatal(&self) -> (fatal: bool)
        ensures
            fatal == self.error.fatal,
    {
        self.error.fatal
    }
}

} // verus!
