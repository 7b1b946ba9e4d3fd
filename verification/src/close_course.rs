//! Closing what an instance still holds: under which lease a retained
//! instance is closed, and what a failed operation does before it is answered.

use vstd::prelude::*;

use crate::error::{fatal_error, RuntimeErrorCode, RuntimeHostError, RuntimeHostResult};
use crate::resource_close::{
    capture_failure_closes, close_instance_missing, failure_after_close, releases_close_lease,
    CloseLease, OperationFailure, ResourceQuiescence,
};

verus! {

/// The next thing to do while a retained instance is closed.
#[derive(Debug, Clone, Copy, PartialEq, Eq, Structural)]
pub enum RetainedAction {
    /// Ask whether the instance owns resources.
    InspectResources,
    /// Ask whether the instance is leased.
    ReadLease,
    /// Read the connection of the active lease.
    ReadConnection,
    /// Ask whether the instance is registered.
    FindInstance,
    /// Prepare a lease for the close and grant it.
    AcquireLease,
    CloseResources,
    ReleaseLease,
}

/// What an action gave.
#[derive(Debug, Clone, Copy)]
pub enum RetainedReply {
    Done,
    Answer(bool),
    /// The close gave an error of its own; whether its resources came to rest.
    CloseFailed(Option<ResourceQuiescence>),
    Failed(RuntimeHostError),
}

/// How the close of a retained instance ends.
#[derive(Debug, Clone, Copy)]
pub enum RetainedEnd {
    Closed,
    /// The error of the close itself is the answer.
    CloseError,
    /// Another holder has the instance.
    Busy,
    Failed(RuntimeHostError),
}

/// A close of a retained instance in progress.
#[derive(Debug, Clone, Copy)]
pub struct RetainedClose {
    pub action: RetainedAction,
    pub reuse_active_lease: bool,
    /// The lease under which the resources are closed.
    pub lease: CloseLease,
    /// The close gave an error of its own.
    pub close_failed: bool,
}

#[derive(Debug, Clone, Copy)]
pub enum RetainedProgress {
    Next(RetainedClose),
    End(RetainedEnd),
}

/// The reply answers the action.
pub open spec fn retained_reply_fits(action: RetainedAction, reply: RetainedReply) -> bool {
    match action {
        RetainedAction::InspectResources
        | RetainedAction::ReadLease
        | RetainedAction::FindInstance => reply is Answer || reply is Failed,
        RetainedAction::CloseResources => reply is Done || reply is CloseFailed || reply is Failed,
        _ => reply is Done || reply is Failed,
    }
}

/// What follows a close: the lease goes back if it was acquired for the close
/// and the resources came to rest.
pub open spec fn after_retained_close(
    close: RetainedClose,
    failure: Option<Option<ResourceQuiescence>>,
) -> RetainedProgress {
    if close.lease == CloseLease::Acquire && (failure is None || failure == Some(
        Some(ResourceQuiescence::Confirmed),
    )) {
        RetainedProgress::Next(
            RetainedClose {
                action: RetainedAction::ReleaseLease,
                close_failed: failure is Some,
                ..close
            },
        )
    } else if failure is Some {
        RetainedProgress::End(RetainedEnd::CloseError)
    } else {
        RetainedProgress::End(RetainedEnd::Closed)
    }
}

/// The step after a reply.
pub open spec fn retained_step(close: RetainedClose, reply: RetainedReply) -> RetainedProgress {
    let next = |action: RetainedAction|
        RetainedProgress::Next(RetainedClose { action, ..close });
    match (close.action, reply) {
        (_, RetainedReply::Failed(error)) => RetainedProgress::End(RetainedEnd::Failed(error)),
        (RetainedAction::InspectResources, RetainedReply::Answer(owns)) => if owns {
            next(RetainedAction::ReadLease)
        } else {
            RetainedProgress::End(RetainedEnd::Closed)
        },
        (RetainedAction::ReadLease, RetainedReply::Answer(active)) => if !active {
            next(RetainedAction::FindInstance)
        } else if close.reuse_active_lease {
            RetainedProgress::Next(
                RetainedClose {
                    action: RetainedAction::ReadConnection,
                    lease: CloseLease::ReuseActive,
                    ..close
                },
            )
        } else {
            RetainedProgress::End(RetainedEnd::Busy)
        },
        (RetainedAction::FindInstance, RetainedReply::Answer(registered)) => if registered {
            next(RetainedAction::AcquireLease)
        } else {
            RetainedProgress::End(
                RetainedEnd::Failed(
                    fatal_error(
                        "resource_close_instance_missing",
                        "acquire_resource_close_lease",
                        RuntimeErrorCode::RuntimeFatal,
                    ),
                ),
            )
        },
        (RetainedAction::ReadConnection, _) => next(RetainedAction::CloseResources),
        (RetainedAction::AcquireLease, _) => RetainedProgress::Next(
            RetainedClose {
                action: RetainedAction::CloseResources,
                lease: CloseLease::Acquire,
                ..close
            },
        ),
        (RetainedAction::CloseResources, RetainedReply::CloseFailed(quiescence)) =>
        after_retained_close(close, Some(quiescence)),
        (RetainedAction::CloseResources, _) => after_retained_close(close, None),
        _ => RetainedProgress::End(
            if close.close_failed {
                RetainedEnd::CloseError
            } else {
                RetainedEnd::Closed
            },
        ),
    }
}

impl RetainedClose {
    pub fn new(reuse_active_lease: bool) -> (close: Self)
        ensures
            close == (RetainedClose {
                action: RetainedAction::InspectResources,
                reuse_active_lease,
                lease: CloseLease::NotNeeded,
                close_failed: false,
            }),
    {
        RetainedClose {
            action: RetainedAction::InspectResources,
            reuse_active_lease,
            lease: CloseLease::NotNeeded,
            close_failed: false,
        }
    }

    fn go(self, action: RetainedAction) -> (progress: RetainedProgress)
        ensures
            progress == RetainedProgress::Next(RetainedClose { action, ..self }),
    {
        let mut close = self;
        close.action = action;
        RetainedProgress::Next(close)
    }

    fn closed(self, failure: Option<Option<ResourceQuiescence>>) -> (progress: RetainedProgress)
        ensures
            progress == after_retained_close(self, failure),
    {
        let mut close = self;
        if releases_close_lease(close.lease, failure) {
            close.close_failed = failure.is_some();
            return close.go(RetainedAction::ReleaseLease);
        }
        if failure.is_some() {
            RetainedProgress::End(RetainedEnd::CloseError)
        } else {
            RetainedProgress::End(RetainedEnd::Closed)
        }
    }

    /// Takes the reply to the current action.
    pub fn advance(self, reply: RetainedReply) -> (progress: RetainedProgress)
        requires
            retained_reply_fits(self.action, reply),
        ensures
            progress == retained_step(self, reply),
    {
        let mut close = self;
        match reply {
            RetainedReply::Failed(error) => RetainedProgress::End(RetainedEnd::Failed(error)),
            RetainedReply::CloseFailed(quiescence) => self.closed(Some(quiescence)),
            RetainedReply::Answer(yes) => match self.action {
                RetainedAction::InspectResources => {
                    if yes {
                        self.go(RetainedAction::ReadLease)
                    } else {
                        RetainedProgress::End(RetainedEnd::Closed)
                    }
                },
                RetainedAction::ReadLease => {
                    if !yes {
                        self.go(RetainedAction::FindInstance)
                    } else if self.reuse_active_lease {
                        close.lease = CloseLease::ReuseActive;
                        close.go(RetainedAction::ReadConnection)
                    } else {
                        RetainedProgress::End(RetainedEnd::Busy)
                    }
                },
                _ => {
                    if yes {
                        self.go(RetainedAction::AcquireLease)
                    } else {
                        RetainedProgress::End(RetainedEnd::Failed(close_instance_missing()))
                    }
                },
            },
            RetainedReply::Done => match self.action {
                RetainedAction::ReadConnection => self.go(RetainedAction::CloseResources),
                RetainedAction::AcquireLease => {
                    close.lease = CloseLease::Acquire;
                    close.go(RetainedAction::CloseResources)
                },
                RetainedAction::CloseResources => self.closed(None),
                _ => {
                    if self.close_failed {
                        RetainedProgress::End(RetainedEnd::CloseError)
                    } else {
                        RetainedProgress::End(RetainedEnd::Closed)
                    }
                },
            },
        }
    }
}

/// A lease that somebody else holds is never given back by a close, and one
/// acquired for the close is kept while the resources are not at rest.
pub proof fn law_lease_goes_back_after_rest(close: RetainedClose, reply: RetainedReply)
    requires
        retained_reply_fits(close.action, reply),
        retained_step(close, reply) matches RetainedProgress::Next(next) && next.action
            == RetainedAction::ReleaseLease,
    ensures
        close.action == RetainedAction::CloseResources,
        close.lease == CloseLease::Acquire,
        reply is Done || reply == RetainedReply::CloseFailed(Some(ResourceQuiescence::Confirmed)),
{
}

/// The next thing to do after an operation on a device failed.
#[derive(Debug, Clone, Copy, PartialEq, Eq, Structural)]
pub enum CleanupAction {
    /// Close the resources of the instance.
    Close,
    /// Append the operation's failure.
    AppendPrimary,
    /// Append the failure of the close.
    AppendCleanup,
    RetainOwner,
    /// Stop the host.
    MarkFatal,
}

/// What an action gave.
#[derive(Debug, Clone, Copy)]
pub enum CleanupReply {
    Done,
    /// The close gave an error of its own.
    CloseError,
    Failed(RuntimeHostError),
}

/// How a failed operation is answered.
#[derive(Debug, Clone, Copy)]
pub enum CleanupEnd {
    /// With its own error.
    Primary,
    /// With its own error joined with that of the close.
    Merged,
    /// With this error instead.
    Failed(RuntimeHostError),
}

/// The cleanup after a failed operation.
#[derive(Debug, Clone, Copy)]
pub struct FailureCleanup {
    pub action: CleanupAction,
    /// The fatal failure of the close, once there is one.
    pub stop: Option<RuntimeHostError>,
}

#[derive(Debug, Clone, Copy)]
pub enum CleanupProgress {
    Next(FailureCleanup),
    End(CleanupEnd),
}

pub open spec fn cleanup_wf(cleanup: FailureCleanup) -> bool {
    match cleanup.action {
        CleanupAction::Close => cleanup.stop is None,
        _ => cleanup.stop matches Some(error) && error.fatal,
    }
}

/// The reply answers the action.
pub open spec fn cleanup_reply_fits(action: CleanupAction, reply: CleanupReply) -> bool {
    reply is CloseError ==> action == CleanupAction::Close
}

/// The step after a reply.
pub open spec fn cleanup_step(cleanup: FailureCleanup, reply: CleanupReply) -> CleanupProgress {
    match (cleanup.action, reply) {
        (CleanupAction::Close, CleanupReply::Done) => CleanupProgress::End(CleanupEnd::Primary),
        (CleanupAction::Close, CleanupReply::CloseError) => CleanupProgress::End(CleanupEnd::Merged),
        (CleanupAction::Close, CleanupReply::Failed(error)) => CleanupProgress::Next(
            FailureCleanup {
                action: CleanupAction::AppendPrimary,
                stop: Some(RuntimeHostError { fatal: true, ..error }),
            },
        ),
        (_, CleanupReply::Failed(error)) => CleanupProgress::End(CleanupEnd::Failed(error)),
        (CleanupAction::AppendPrimary, _) => CleanupProgress::Next(
            FailureCleanup { action: CleanupAction::AppendCleanup, ..cleanup },
        ),
        (CleanupAction::AppendCleanup, _) => CleanupProgress::Next(
            FailureCleanup { action: CleanupAction::RetainOwner, ..cleanup },
        ),
        (CleanupAction::RetainOwner, _) => CleanupProgress::Next(
            FailureCleanup { action: CleanupAction::MarkFatal, ..cleanup },
        ),
        (CleanupAction::MarkFatal, _) => CleanupProgress::End(
            CleanupEnd::Failed(cleanup.stop->0),
        ),
    }
}

impl FailureCleanup {
    /// The cleanup after a failed input: the resources are always closed.
    pub fn after_input() -> (cleanup: Self)
        ensures
            cleanup == (FailureCleanup { action: CleanupAction::Close, stop: None }),
            cleanup_wf(cleanup),
    {
        FailureCleanup { action: CleanupAction::Close, stop: None }
    }

    /// The cleanup after a failed capture: nothing is closed where a close is
    /// pending already, or where the error names no instance.
    pub fn after_capture(code: &str, has_instance: bool) -> (progress: CleanupProgress)
        ensures
            progress == if code@ != "execution_session_close_pending"@ && has_instance {
                CleanupProgress::Next(FailureCleanup { action: CleanupAction::Close, stop: None })
            } else {
                CleanupProgress::End(CleanupEnd::Primary)
            },
    {
        if capture_failure_closes(code, has_instance) {
            CleanupProgress::Next(FailureCleanup { action: CleanupAction::Close, stop: None })
        } else {
            CleanupProgress::End(CleanupEnd::Primary)
        }
    }

    /// Takes the reply to the current action.
    pub fn advance(self, reply: CleanupReply) -> (progress: CleanupProgress)
        requires
            cleanup_wf(self),
            cleanup_reply_fits(self.action, reply),
        ensures
            progress == cleanup_step(self, reply),
            progress matches CleanupProgress::Next(next) ==> cleanup_wf(next),
    {
        if self.action == CleanupAction::Close {
            let closed: RuntimeHostResult<bool> = match reply {
                CleanupReply::Done => Ok(true),
                CleanupReply::CloseError => Ok(false),
                CleanupReply::Failed(error) => Err(error),
            };
            return match failure_after_close(closed) {
                OperationFailure::Primary => CleanupProgress::End(CleanupEnd::Primary),
                OperationFailure::Merged => CleanupProgress::End(CleanupEnd::Merged),
                OperationFailure::Stop(error) => CleanupProgress::Next(
                    FailureCleanup { action: CleanupAction::AppendPrimary, stop: Some(error) },
                ),
            };
        }
        if let CleanupReply::Failed(error) = reply {
            return CleanupProgress::End(CleanupEnd::Failed(error));
        }
        let action = match self.action {
            CleanupAction::AppendPrimary => CleanupAction::AppendCleanup,
            CleanupAction::AppendCleanup => CleanupAction::RetainOwner,
            CleanupAction::RetainOwner => CleanupAction::MarkFatal,
            _ => {
                return CleanupProgress::End(CleanupEnd::Failed(self.stop.unwrap()));
            },
        };
        CleanupProgress::Next(FailureCleanup { action, stop: self.stop })
    }
}

/// A cleanup that could not be made is answered with its fatal error only
/// after both failures were appended, the owner was retained and the host was
/// stopped.
pub proof fn law_failed_cleanup_stops_the_host(cleanup: FailureCleanup, reply: CleanupReply)
    requires
        cleanup_wf(cleanup),
        cleanup_reply_fits(cleanup.action, reply),
        cleanup.action != CleanupAction::Close,
    ensures
        cleanup_step(cleanup, reply) matches CleanupProgress::End(end) ==> (reply
            == CleanupReply::Done && cleanup.action == CleanupAction::MarkFatal && end
            == CleanupEnd::Failed(cleanup.stop->0)) || (reply matches CleanupReply::Failed(error)
            && end == CleanupEnd::Failed(error)),
{
}

/// Resources that nobody owns any more need no close, and ones whose lease is
/// active are left alone unless that lease may be used.
pub proof fn law_close_needs_something_to_close(close: RetainedClose)
    ensures
        close.action == RetainedAction::InspectResources ==> retained_step(
            close,
            RetainedReply::Answer(false),
        ) == RetainedProgress::End(RetainedEnd::Closed) && (retained_step(
            close,
            RetainedReply::Answer(true),
        ) matches RetainedProgress::Next(next) && next == (RetainedClose {
            action: RetainedAction::ReadLease,
            ..close
        })),
        close.action == RetainedAction::ReadLease && !close.reuse_active_lease ==> retained_step(
            close,
            RetainedReply::Answer(true),
        ) == RetainedProgress::End(RetainedEnd::Busy),
{
}

/// A close under the active lease goes from the connection to the close and
/// ends there: the lease stays with its holder whether or not the close
/// failed.
pub proof fn law_active_lease_is_only_used(
    close: RetainedClose,
    quiescence: Option<ResourceQuiescence>,
)
    requires
        close.action == RetainedAction::ReadLease,
        close.reuse_active_lease,
    ensures
        retained_step(close, RetainedReply::Answer(true)) matches RetainedProgress::Next(read)
            && read.action == RetainedAction::ReadConnection && read.lease
            == CloseLease::ReuseActive && (retained_step(
            read,
            RetainedReply::Done,
        ) matches RetainedProgress::Next(last) && last.action == RetainedAction::CloseResources
            && retained_step(last, RetainedReply::Done) == RetainedProgress::End(
            RetainedEnd::Closed,
        ) && retained_step(last, RetainedReply::CloseFailed(quiescence)) == RetainedProgress::End(
            RetainedEnd::CloseError,
        )),
{
}

/// Without an active lease one is acquired for the registered instance, the
/// resources are closed under it, and it is given back; a close that failed is
/// answered with its error after that.
pub proof fn law_acquired_lease_is_given_back(close: RetainedClose)
    requires
        close.action == RetainedAction::ReadLease,
        !close.close_failed,
    ensures
        retained_step(close, RetainedReply::Answer(false)) matches RetainedProgress::Next(find)
            && find.action == RetainedAction::FindInstance && (retained_step(
            find,
            RetainedReply::Answer(true),
        ) matches RetainedProgress::Next(acquire) && acquire.action == RetainedAction::AcquireLease
            && (retained_step(acquire, RetainedReply::Done) matches RetainedProgress::Next(shut)
            && shut.action == RetainedAction::CloseResources && (retained_step(
            shut,
            RetainedReply::Done,
        ) matches RetainedProgress::Next(back) && back.action == RetainedAction::ReleaseLease
            && retained_step(back, RetainedReply::Done) == RetainedProgress::End(
            RetainedEnd::Closed,
        )) && (retained_step(
            shut,
            RetainedReply::CloseFailed(Some(ResourceQuiescence::Confirmed)),
        ) matches RetainedProgress::Next(back) && back.action == RetainedAction::ReleaseLease
            && retained_step(back, RetainedReply::Done) == RetainedProgress::End(
            RetainedEnd::CloseError,
        )) && retained_step(
            shut,
            RetainedReply::CloseFailed(Some(ResourceQuiescence::Unconfirmed)),
        ) == RetainedProgress::End(RetainedEnd::CloseError) && retained_step(
            shut,
            RetainedReply::CloseFailed(None),
        ) == RetainedProgress::End(RetainedEnd::CloseError))),
{
}

/// An instance that is no longer registered, and any step that fails, ends the
/// close with an error.
pub proof fn law_failed_close_step_is_told(close: RetainedClose, error: RuntimeHostError)
    ensures
        retained_step(close, RetainedReply::Failed(error)) == RetainedProgress::End(
            RetainedEnd::Failed(error),
        ),
        close.action == RetainedAction::FindInstance ==> (retained_step(
            close,
            RetainedReply::Answer(false),
        ) matches RetainedProgress::End(RetainedEnd::Failed(missing)) && missing.fatal
            && missing.code == "resource_close_instance_missing"),
{
}

/// After a failed operation the close decides: one that worked leaves the
/// operation's failure as the answer, one whose own failure was recorded is
/// told together with it, and one that could not be made stops the host after
/// both failures were appended and the owner was retained.
pub proof fn law_cleanup_goes_by_its_close(cleanup: FailureCleanup, error: RuntimeHostError)
    requires
        cleanup.action == CleanupAction::Close,
    ensures
        cleanup_step(cleanup, CleanupReply::Done) == CleanupProgress::End(CleanupEnd::Primary),
        cleanup_step(cleanup, CleanupReply::CloseError) == CleanupProgress::End(CleanupEnd::Merged),
        cleanup_step(cleanup, CleanupReply::Failed(error)) matches CleanupProgress::Next(first)
            && first.action == CleanupAction::AppendPrimary && (cleanup_step(
            first,
            CleanupReply::Done,
        ) matches CleanupProgress::Next(second) && second.action == CleanupAction::AppendCleanup && (
        cleanup_step(second, CleanupReply::Done) matches CleanupProgress::Next(third)
            && third.action == CleanupAction::RetainOwner && (cleanup_step(
            third,
            CleanupReply::Done,
        ) matches CleanupProgress::Next(last) && last.action == CleanupAction::MarkFatal && (
        cleanup_step(last, CleanupReply::Done) matches CleanupProgress::End(CleanupEnd::Failed(told))
            && told.fatal && told.code == error.code && told.operation == error.operation
            && told.projection == error.projection)))),
{
}

} // verus!
