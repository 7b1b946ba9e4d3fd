//! Closing the device resources of an instance: the order of the steps, and
//! what the owner journal must say at the end.

use vstd::prelude::*;

use crate::error::{fatal_error, RuntimeErrorCode, RuntimeHostError, RuntimeHostResult};
use crate::owner::OwnerResourceDisposition;
use crate::text::same_text;

verus! {

/// Whether a device's resources came to rest.
#[derive(Debug, Clone, Copy, PartialEq, Eq, Structural)]
pub enum ResourceQuiescence {
    Confirmed,
    Unconfirmed,
}

/// What follows a failed operation once it was asked whether its resources
/// have to be retained.
#[derive(Debug, Clone, Copy)]
pub enum AfterRetention {
    /// The resources are retained: answer with the failure.
    Answer,
    /// Clean up the lease, then answer with the failure.
    Cleanup,
    /// Retaining failed: the host stops with this error.
    Poison(RuntimeHostError),
}

pub fn after_retention(retained: RuntimeHostResult<bool>) -> (next: AfterRetention)
    ensures
        next == match retained {
            Ok(true) => AfterRetention::Answer,
            Ok(false) => AfterRetention::Cleanup,
            Err(error) => AfterRetention::Poison(error),
        },
{
    match retained {
        Ok(true) => AfterRetention::Answer,
        Ok(false) => AfterRetention::Cleanup,
        Err(error) => AfterRetention::Poison(error),
    }
}

/// Whether a failure's resources have to be retained.
pub fn must_retain(quiescence: Option<ResourceQuiescence>) -> (retain: bool)
    ensures
        retain == (quiescence == Some(ResourceQuiescence::Unconfirmed)),
{
    match quiescence {
        Some(ResourceQuiescence::Unconfirmed) => true,
        _ => false,
    }
}

/// The first of the errors of recording a failure, retaining the owner and
/// stopping the host, all three of which are tried.
pub open spec fn first_retention_error(
    recorded: RuntimeHostResult<()>,
    retained: RuntimeHostResult<()>,
    marked: RuntimeHostResult<()>,
) -> RuntimeHostResult<()> {
    if recorded is Err {
        recorded
    } else if retained is Err {
        retained
    } else {
        marked
    }
}

pub fn retention_result(
    recorded: RuntimeHostResult<()>,
    retained: RuntimeHostResult<()>,
    marked: RuntimeHostResult<()>,
) -> (result: RuntimeHostResult<()>)
    ensures
        result == first_retention_error(recorded, retained, marked),
{
    if recorded.is_err() {
        recorded
    } else if retained.is_err() {
        retained
    } else {
        marked
    }
}

/// The disposition that the owner journal takes after a close: a retained
/// epoch keeps its own, otherwise it depends on the sessions that remain.
pub fn owner_close_disposition(
    retained: RuntimeHostResult<Option<OwnerResourceDisposition>>,
    has_sessions: bool,
) -> (result: RuntimeHostResult<(OwnerResourceDisposition, bool)>)
    ensures
        match retained {
            Err(error) => result == Err::<(OwnerResourceDisposition, bool), _>(error),
            Ok(Some(disposition)) => result == Ok::<_, RuntimeHostError>((disposition, false)),
            Ok(None) => result == Ok::<_, RuntimeHostError>(
                if has_sessions {
                    (OwnerResourceDisposition::InUse, true)
                } else {
                    (OwnerResourceDisposition::ConfirmedClosed, true)
                },
            ),
        },
{
    match retained {
        Err(error) => Err(error),
        Ok(Some(disposition)) => Ok((disposition, false)),
        Ok(None) => {
            if has_sessions {
                Ok((OwnerResourceDisposition::InUse, true))
            } else {
                Ok((OwnerResourceDisposition::ConfirmedClosed, true))
            }
        },
    }
}

/// The next thing to do while the resources of an instance are closed.
#[derive(Debug, Clone, Copy, PartialEq, Eq, Structural)]
pub enum CloseAction {
    /// Ask whether an earlier close of the instance stayed unconfirmed.
    ReadUnconfirmed,
    /// Ask whether the instance owns resources.
    InspectSession,
    /// Let the owner journal say what is left.
    RecordOwner,
    /// Tell the scheduler that a destructive step begins.
    BeginStep,
    /// Close the instance.
    CloseInstance,
    /// Append what the closed processes printed.
    AppendStdio,
    /// Append that the resources came to rest.
    AppendQuiescence,
    /// Append the failed close.
    AppendFailure,
    /// Retain the owner epoch.
    RetainOwner,
    /// Stop the host.
    MarkFatal,
    /// Tell the scheduler that the destructive step ended.
    FinishStep,
}

/// What an action gave.
#[derive(Debug, Clone, Copy)]
pub enum CloseReply {
    Done,
    /// The answer to a question.
    Answer(bool),
    /// The close failed; whether its resources are unconfirmed.
    CloseFailed { unconfirmed: bool },
    Failed(RuntimeHostError),
}

/// How a close of resources ends.
#[derive(Debug, Clone, Copy)]
pub enum CloseEnd {
    Closed,
    /// The error of the close itself is the answer.
    CloseError,
    /// The host stops with this error.
    Poison(RuntimeHostError),
}

/// How the instance's own close went.
#[derive(Debug, Clone, Copy, PartialEq, Eq, Structural)]
pub enum CloseCourse {
    /// It was not tried yet, or there was nothing to close.
    Open,
    Closed,
    Unconfirmed,
    FailedConfirmed,
}

/// A close in progress.
#[derive(Debug, Clone, Copy)]
pub struct ResourceClose {
    pub action: CloseAction,
    pub course: CloseCourse,
    /// The owner journal was told what is left.
    pub owner_recorded: bool,
    /// The owner epoch was retained, or that was tried.
    pub owner_retained: bool,
    /// The first error among those that do not stop the close at once.
    pub first_error: Option<RuntimeHostError>,
}

/// A close that goes on, or its end.
#[derive(Debug, Clone, Copy)]
pub enum CloseProgress {
    Next(ResourceClose),
    End(CloseEnd),
}

/// The action may be the next one in a close that went like this.
pub open spec fn close_wf(close: ResourceClose) -> bool {
    match close.action {
        CloseAction::ReadUnconfirmed => close == initial_close(),
        CloseAction::InspectSession => close == (ResourceClose {
            action: CloseAction::InspectSession,
            ..initial_close()
        }),
        CloseAction::RecordOwner => !close.owner_recorded && !close.owner_retained
            && close.course != CloseCourse::Unconfirmed && close.first_error is None,
        CloseAction::BeginStep => close == (ResourceClose {
            action: CloseAction::BeginStep,
            ..initial_close()
        }),
        CloseAction::CloseInstance => close == (ResourceClose {
            action: CloseAction::CloseInstance,
            ..initial_close()
        }),
        CloseAction::AppendStdio => close == (ResourceClose {
            action: CloseAction::AppendStdio,
            course: CloseCourse::Closed,
            ..initial_close()
        }),
        CloseAction::AppendQuiescence => close == (ResourceClose {
            action: CloseAction::AppendQuiescence,
            course: CloseCourse::Closed,
            owner_recorded: true,
            ..initial_close()
        }),
        CloseAction::AppendFailure => !close.owner_recorded && !close.owner_retained
            && close.first_error is None && (close.course == CloseCourse::Unconfirmed
            || close.course == CloseCourse::FailedConfirmed),
        CloseAction::RetainOwner => close.course == CloseCourse::Unconfirmed
            && !close.owner_recorded && !close.owner_retained,
        CloseAction::MarkFatal => close.course == CloseCourse::Unconfirmed
            && !close.owner_recorded && close.owner_retained,
        CloseAction::FinishStep => close.owner_recorded && !close.owner_retained
            && close.first_error is None && (close.course == CloseCourse::Closed || close.course
            == CloseCourse::FailedConfirmed),
    }
}

pub open spec fn initial_close() -> ResourceClose {
    ResourceClose {
        action: CloseAction::ReadUnconfirmed,
        course: CloseCourse::Open,
        owner_recorded: false,
        owner_retained: false,
        first_error: None,
    }
}

/// The reply answers the action.
pub open spec fn reply_fits(action: CloseAction, reply: CloseReply) -> bool {
    match reply {
        CloseReply::Failed(_) => true,
        CloseReply::Answer(_) => action == CloseAction::ReadUnconfirmed || action
            == CloseAction::InspectSession,
        CloseReply::CloseFailed { .. } => action == CloseAction::CloseInstance,
        CloseReply::Done => action != CloseAction::ReadUnconfirmed && action
            != CloseAction::InspectSession,
    }
}

/// The error that comes first.
pub open spec fn earlier_error(
    first: Option<RuntimeHostError>,
    reply: CloseReply,
) -> Option<RuntimeHostError> {
    match (first, reply) {
        (Some(error), _) => Some(error),
        (None, CloseReply::Failed(error)) => Some(error),
        _ => None,
    }
}

/// The step after a reply.
pub open spec fn close_step(close: ResourceClose, reply: CloseReply) -> CloseProgress {
    let next = |action: CloseAction| CloseProgress::Next(ResourceClose { action, ..close });
    match close.action {
        // On an unconfirmed close all three of these are tried before the
        // first error among them counts.
        CloseAction::AppendFailure => if close.course == CloseCourse::Unconfirmed {
            CloseProgress::Next(
                ResourceClose {
                    action: CloseAction::RetainOwner,
                    first_error: earlier_error(close.first_error, reply),
                    ..close
                },
            )
        } else {
            match reply {
                CloseReply::Failed(error) => CloseProgress::End(CloseEnd::Poison(error)),
                _ => next(CloseAction::RecordOwner),
            }
        },
        CloseAction::RetainOwner => CloseProgress::Next(
            ResourceClose {
                action: CloseAction::MarkFatal,
                owner_retained: true,
                first_error: earlier_error(close.first_error, reply),
                ..close
            },
        ),
        CloseAction::MarkFatal => match earlier_error(close.first_error, reply) {
            Some(error) => CloseProgress::End(CloseEnd::Poison(error)),
            None => CloseProgress::End(CloseEnd::CloseError),
        },
        _ => match reply {
            CloseReply::Failed(error) => CloseProgress::End(CloseEnd::Poison(error)),
            CloseReply::Answer(yes) => if close.action == CloseAction::ReadUnconfirmed {
                if yes {
                    CloseProgress::End(CloseEnd::CloseError)
                } else {
                    next(CloseAction::InspectSession)
                }
            } else if yes {
                next(CloseAction::BeginStep)
            } else {
                next(CloseAction::RecordOwner)
            },
            CloseReply::CloseFailed { unconfirmed } => CloseProgress::Next(
                ResourceClose {
                    action: CloseAction::AppendFailure,
                    course: if unconfirmed {
                        CloseCourse::Unconfirmed
                    } else {
                        CloseCourse::FailedConfirmed
                    },
                    ..close
                },
            ),
            CloseReply::Done => match close.action {
                CloseAction::BeginStep => next(CloseAction::CloseInstance),
                CloseAction::CloseInstance => CloseProgress::Next(
                    ResourceClose {
                        action: CloseAction::AppendStdio,
                        course: CloseCourse::Closed,
                        ..close
                    },
                ),
                CloseAction::AppendStdio => next(CloseAction::RecordOwner),
                CloseAction::RecordOwner => match close.course {
                    CloseCourse::Open => CloseProgress::End(CloseEnd::Closed),
                    CloseCourse::Closed => CloseProgress::Next(
                        ResourceClose {
                            action: CloseAction::AppendQuiescence,
                            owner_recorded: true,
                            ..close
                        },
                    ),
                    _ => CloseProgress::Next(
                        ResourceClose {
                            action: CloseAction::FinishStep,
                            owner_recorded: true,
                            ..close
                        },
                    ),
                },
                CloseAction::AppendQuiescence => next(CloseAction::FinishStep),
                _ => if close.course == CloseCourse::Closed {
                    CloseProgress::End(CloseEnd::Closed)
                } else {
                    CloseProgress::End(CloseEnd::CloseError)
                },
            },
        },
    }
}

impl ResourceClose {
    pub fn new() -> (close: Self)
        ensures
            close == initial_close(),
            close_wf(close),
    {
        ResourceClose {
            action: CloseAction::ReadUnconfirmed,
            course: CloseCourse::Open,
            owner_recorded: false,
            owner_retained: false,
            first_error: None,
        }
    }

    fn go(self, action: CloseAction) -> (progress: CloseProgress)
        ensures
            progress == CloseProgress::Next(ResourceClose { action, ..self }),
    {
        let mut close = self;
        close.action = action;
        CloseProgress::Next(close)
    }

    fn note(&mut self, reply: CloseReply)
        ensures
            *final(self) == (ResourceClose {
                first_error: earlier_error(old(self).first_error, reply),
                ..*old(self)
            }),
    {
        if self.first_error.is_none() {
            if let CloseReply::Failed(error) = reply {
                self.first_error = Some(error);
            }
        }
    }

    /// Goes on after the reply to the current action.
    pub fn advance(self, reply: CloseReply) -> (progress: CloseProgress)
        requires
            close_wf(self),
            reply_fits(self.action, reply),
        ensures
            progress == close_step(self, reply),
            progress matches CloseProgress::Next(next) ==> close_wf(next),
    {
        let mut close = self;
        match self.action {
            CloseAction::AppendFailure => {
                if self.course == CloseCourse::Unconfirmed {
                    close.note(reply);
                    return close.go(CloseAction::RetainOwner);
                }
                if let CloseReply::Failed(error) = reply {
                    return CloseProgress::End(CloseEnd::Poison(error));
                }
                return self.go(CloseAction::RecordOwner);
            },
            CloseAction::RetainOwner => {
                close.note(reply);
                close.owner_retained = true;
                return close.go(CloseAction::MarkFatal);
            },
            CloseAction::MarkFatal => {
                close.note(reply);
                return match close.first_error {
                    Some(error) => CloseProgress::End(CloseEnd::Poison(error)),
                    None => CloseProgress::End(CloseEnd::CloseError),
                };
            },
            _ => {},
        }
        match reply {
            CloseReply::Failed(error) => CloseProgress::End(CloseEnd::Poison(error)),
            CloseReply::Answer(yes) => {
                if self.action == CloseAction::ReadUnconfirmed {
                    if yes {
                        CloseProgress::End(CloseEnd::CloseError)
                    } else {
                        self.go(CloseAction::InspectSession)
                    }
                } else if yes {
                    self.go(CloseAction::BeginStep)
                } else {
                    self.go(CloseAction::RecordOwner)
                }
            },
            CloseReply::CloseFailed { unconfirmed } => {
                close.course = if unconfirmed {
                    CloseCourse::Unconfirmed
                } else {
                    CloseCourse::FailedConfirmed
                };
                close.go(CloseAction::AppendFailure)
            },
            CloseReply::Done => match self.action {
                CloseAction::BeginStep => self.go(CloseAction::CloseInstance),
                CloseAction::CloseInstance => {
                    close.course = CloseCourse::Closed;
                    close.go(CloseAction::AppendStdio)
                },
                CloseAction::AppendStdio => self.go(CloseAction::RecordOwner),
                CloseAction::RecordOwner => match self.course {
                    CloseCourse::Open => CloseProgress::End(CloseEnd::Closed),
                    CloseCourse::Closed => {
                        close.owner_recorded = true;
                        close.go(CloseAction::AppendQuiescence)
                    },
                    _ => {
                        close.owner_recorded = true;
                        close.go(CloseAction::FinishStep)
                    },
                },
                CloseAction::AppendQuiescence => self.go(CloseAction::FinishStep),
                _ => {
                    if self.course == CloseCourse::Closed {
                        CloseProgress::End(CloseEnd::Closed)
                    } else {
                        CloseProgress::End(CloseEnd::CloseError)
                    }
                },
            },
        }
    }
}

/// A close that stayed unconfirmed never ends before the owner epoch was
/// retained, and never lets the owner journal say that its resources are
/// released.
pub proof fn law_unconfirmed_close_retains_owner(close: ResourceClose, reply: CloseReply)
    requires
        close_wf(close),
        reply_fits(close.action, reply),
        close.course == CloseCourse::Unconfirmed,
    ensures
        close_step(close, reply) is End ==> close.owner_retained,
        close.action != CloseAction::RecordOwner,
        close_step(close, reply) matches CloseProgress::Next(next) ==> next.course
            == CloseCourse::Unconfirmed,
{
}

/// A close only ends well once the owner journal was told what is left.
pub proof fn law_closed_is_recorded(close: ResourceClose, reply: CloseReply)
    requires
        close_wf(close),
        reply_fits(close.action, reply),
        close_step(close, reply) == CloseProgress::End(CloseEnd::Closed),
    ensures
        close.action == CloseAction::RecordOwner || close.owner_recorded,
{
}

/// How the lease for a close of retained resources is had.
#[derive(Debug, Clone, Copy, PartialEq, Eq, Structural)]
pub enum CloseLease {
    /// There is none yet.
    NotNeeded,
    /// The active lease is used.
    ReuseActive,
    /// One is acquired for the close.
    Acquire,
}

/// The error of closing an instance that is no longer registered.
pub fn close_instance_missing() -> (error: RuntimeHostError)
    ensures
        error == fatal_error(
            "resource_close_instance_missing",
            "acquire_resource_close_lease",
            RuntimeErrorCode::RuntimeFatal,
        ),
{
    RuntimeHostError::fatal(
        "resource_close_instance_missing",
        "acquire_resource_close_lease",
        RuntimeErrorCode::RuntimeFatal,
    )
}

/// Whether the lease of a close is given back: only one acquired for it, and
/// only when the resources came to rest. `failure` is the quiescence of a
/// failed close, and `None` after a close that succeeded.
pub fn releases_close_lease(
    lease: CloseLease,
    failure: Option<Option<ResourceQuiescence>>,
) -> (release: bool)
    ensures
        release == (lease == CloseLease::Acquire && (failure is None || failure == Some(
            Some(ResourceQuiescence::Confirmed),
        ))),
{
    let confirmed = match failure {
        None => true,
        Some(Some(ResourceQuiescence::Confirmed)) => true,
        _ => false,
    };
    lease == CloseLease::Acquire && confirmed
}

/// Whether a failed capture closes the instance's resources first.
pub fn capture_failure_closes(code: &str, has_instance: bool) -> (closes: bool)
    ensures
        closes == (code@ != "execution_session_close_pending"@ && has_instance),
{
    !same_text(code, "execution_session_close_pending") && has_instance
}

/// What a failed operation answers once its resources were closed.
#[derive(Debug, Clone, Copy)]
pub enum OperationFailure {
    /// The operation's own error.
    Primary,
    /// The operation's error joined with that of the close.
    Merged,
    /// Both failures are recorded, the owner is retained, and the host stops
    /// with this error.
    Stop(RuntimeHostError),
}

/// `closed` is `Ok(true)` after a close that succeeded and `Ok(false)` after
/// one that gave its own error.
pub fn failure_after_close(closed: RuntimeHostResult<bool>) -> (answer: OperationFailure)
    ensures
        answer == match closed {
            Ok(true) => OperationFailure::Primary,
            Ok(false) => OperationFailure::Merged,
            Err(error) => OperationFailure::Stop(RuntimeHostError { fatal: true, ..error }),
        },
{
    match closed {
        Ok(true) => OperationFailure::Primary,
        Ok(false) => OperationFailure::Merged,
        Err(error) => OperationFailure::Stop(error.into_fatal()),
    }
}

/// An instance whose session has gone needs no close: the journal is told that
/// nothing is left, and the close ends well.
pub proof fn law_ended_session_is_recorded()
    ensures
        close_step(initial_close(), CloseReply::Answer(false)) matches CloseProgress::Next(second)
            && second.action == CloseAction::InspectSession && (close_step(
            second,
            CloseReply::Answer(false),
        ) matches CloseProgress::Next(third) && third.action == CloseAction::RecordOwner
            && close_step(third, CloseReply::Done) == CloseProgress::End(CloseEnd::Closed)),
{
}

/// An earlier close that stayed unconfirmed is not tried again: it is answered
/// with its error.
pub proof fn law_unconfirmed_close_is_not_repeated()
    ensures
        close_step(initial_close(), CloseReply::Answer(true)) == CloseProgress::End(
            CloseEnd::CloseError,
        ),
{
}

/// A close that works is made in order: the step begins, the instance is
/// closed, its last output is appended, the journal is told, the rest of the
/// resources is appended, and the step ends well.
pub proof fn law_close_is_made_in_order(close: ResourceClose)
    requires
        close_wf(close),
        close.course != CloseCourse::Unconfirmed,
        close.course != CloseCourse::FailedConfirmed,
    ensures
        close.action == CloseAction::InspectSession ==> (close_step(
            close,
            CloseReply::Answer(true),
        ) matches CloseProgress::Next(next) && next.action == CloseAction::BeginStep),
        close.action == CloseAction::BeginStep ==> (close_step(
            close,
            CloseReply::Done,
        ) matches CloseProgress::Next(next) && next.action == CloseAction::CloseInstance),
        close.action == CloseAction::CloseInstance ==> (close_step(
            close,
            CloseReply::Done,
        ) matches CloseProgress::Next(next) && next.action == CloseAction::AppendStdio),
        close.action == CloseAction::AppendStdio ==> (close_step(
            close,
            CloseReply::Done,
        ) matches CloseProgress::Next(next) && next.action == CloseAction::RecordOwner && (
        close_step(next, CloseReply::Done) matches CloseProgress::Next(told) && told.action
            == CloseAction::AppendQuiescence && told.owner_recorded)),
        close.action == CloseAction::AppendQuiescence ==> (close_step(
            close,
            CloseReply::Done,
        ) matches CloseProgress::Next(next) && next.action == CloseAction::FinishStep
            && close_step(next, CloseReply::Done) == CloseProgress::End(CloseEnd::Closed)),
{
}

/// An instance that failed to close but came to rest is recorded as closed,
/// and the close is answered with its error.
pub proof fn law_confirmed_failure_is_recorded(close: ResourceClose)
    requires
        close_wf(close),
        close.action == CloseAction::CloseInstance,
    ensures
        close_step(close, CloseReply::CloseFailed { unconfirmed: false }) matches CloseProgress::Next(
            failed,
        ) && failed.action == CloseAction::AppendFailure && (close_step(
            failed,
            CloseReply::Done,
        ) matches CloseProgress::Next(told) && told.action == CloseAction::RecordOwner && (
        close_step(told, CloseReply::Done) matches CloseProgress::Next(last) && last.action
            == CloseAction::FinishStep && last.owner_recorded && close_step(last, CloseReply::Done)
            == CloseProgress::End(CloseEnd::CloseError))),
{
}

/// An instance that did not come to rest has its failure appended, its owner
/// retained and the host stopped, all three whatever becomes of each; the first
/// error among them is the answer, and without one that of the close is.
pub proof fn law_unconfirmed_failure_is_retained(
    close: ResourceClose,
    appended: CloseReply,
    retained: CloseReply,
    stopped: CloseReply,
)
    requires
        close_wf(close),
        close.action == CloseAction::CloseInstance,
        appended is Done || appended is Failed,
        retained is Done || retained is Failed,
        stopped is Done || stopped is Failed,
    ensures
        close_step(close, CloseReply::CloseFailed { unconfirmed: true }) matches CloseProgress::Next(
            first,
        ) && first.action == CloseAction::AppendFailure && (close_step(
            first,
            appended,
        ) matches CloseProgress::Next(second) && second.action == CloseAction::RetainOwner && (
        close_step(second, retained) matches CloseProgress::Next(third) && third.action
            == CloseAction::MarkFatal && third.owner_retained && close_step(third, stopped)
            == CloseProgress::End(
            if appended is Failed {
                CloseEnd::Poison(appended->Failed_0)
            } else if retained is Failed {
                CloseEnd::Poison(retained->Failed_0)
            } else if stopped is Failed {
                CloseEnd::Poison(stopped->Failed_0)
            } else {
                CloseEnd::CloseError
            },
        ))),
{
}

/// Everywhere else a failure stops the host with that failure.
pub proof fn law_failed_step_stops_the_host(close: ResourceClose, error: RuntimeHostError)
    requires
        close_wf(close),
        close.course != CloseCourse::Unconfirmed,
    ensures
        close_step(close, CloseReply::Failed(error)) == CloseProgress::End(CloseEnd::Poison(error)),
{
}

/// Of the three steps of a retention the first that failed is the answer, and
/// the retention went well only when none failed.
pub proof fn law_first_failure_is_told(
    recorded: RuntimeHostResult<()>,
    retained: RuntimeHostResult<()>,
    marked: RuntimeHostResult<()>,
)
    ensures
        first_retention_error(recorded, retained, marked) is Ok <==> recorded is Ok && retained is Ok
            && marked is Ok,
        recorded is Err ==> first_retention_error(recorded, retained, marked)->Err_0
            == recorded->Err_0,
        recorded is Ok && retained is Err ==> first_retention_error(
            recorded,
            retained,
            marked,
        )->Err_0 == retained->Err_0,
        recorded is Ok && retained is Ok && marked is Err ==> first_retention_error(
            recorded,
            retained,
            marked,
        )->Err_0 == marked->Err_0,
{
}

} // verus!
