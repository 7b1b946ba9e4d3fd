//! The courses of staging a release and of switching to one, and of the
//! recovery that brings the release state and the ledger together when the
//! runtime starts.

use vstd::prelude::*;

use crate::error::{fatal_error, RuntimeErrorCode, RuntimeHostError, RuntimeHostResult};
use crate::release_state::{
    baseline_fact, check_intent, cursor_valid, find_release_fact, intent_outcome_type,
    intent_resolution, outcome_type, read_up_to, reconcile_intent, recovery_error, rejection_error,
    release_failure_error, release_recovery_error, release_rejection_error, searched,
    settle_intent, FactQuery, FactQueryView, FactSearch, IntentCheck, ReleaseBaselineMember,
    ReleaseEvent, ReleaseEventType, ReleasePayload, ReleaseTransitionKind, TransitionAppend,
};

verus! {

/// The error of an append that changes the state with it.
pub open spec fn append_error(append: TransitionAppend) -> Option<RuntimeHostError> {
    match append {
        TransitionAppend::Appended => None,
        TransitionAppend::RolledBack { code, operation, fatal } => Some(
            rejection_error(code, operation, fatal),
        ),
        TransitionAppend::LedgerFailed { code, operation } => Some(
            fatal_error(code, operation, RuntimeErrorCode::LedgerFailure),
        ),
    }
}

/// The error of an append that changes the state with it: what the state
/// refused keeps its own code, what the ledger failed at is fatal.
pub fn release_transaction_error(append: TransitionAppend) -> (error: Option<RuntimeHostError>)
    ensures
        error == append_error(append),
{
    match append {
        TransitionAppend::Appended => None,
        TransitionAppend::RolledBack { code, operation, fatal } => Some(
            release_rejection_error(code, operation, fatal),
        ),
        TransitionAppend::LedgerFailed { code, operation } => Some(
            RuntimeHostError::fatal(code, operation, RuntimeErrorCode::LedgerFailure),
        ),
    }
}

/// The next thing to do while the active release is switched.
#[derive(Debug, Clone, Copy, PartialEq, Eq, Structural)]
pub enum SwitchAction {
    TakeGate,
    /// Ask whether the host has stopped.
    ReadFatal,
    VerifyReady,
    PreviewTransition,
    ReadManifest,
    AppendIntent,
    /// Prepare the state and the event of the success.
    PrepareSuccess,
    /// Append the success together with the change of the state.
    AppendSuccess,
    /// Append that nothing was changed.
    AppendFailure,
    PublishFailure,
    PublishSuccess,
    /// Stop the host.
    MarkFatal,
}

/// What an action of a switch gave.
#[derive(Debug, Clone, Copy)]
pub enum SwitchReply {
    Done,
    Failed(RuntimeHostError),
    /// The error with which the host stopped, if it did.
    Stopped(Option<RuntimeHostError>),
    Appended(TransitionAppend),
}

/// A switch in progress.
#[derive(Debug, Clone, Copy)]
pub struct ReleaseSwitch {
    pub action: SwitchAction,
    /// The error that the switch is answered with, once there is one.
    pub failure: Option<RuntimeHostError>,
}

/// A switch that goes on, or its result: the manifest that was read, or an
/// error.
#[derive(Debug, Clone, Copy)]
pub enum SwitchProgress {
    Next(ReleaseSwitch),
    End(RuntimeHostResult<()>),
}

pub open spec fn switch_wf(switch: ReleaseSwitch) -> bool {
    match switch.action {
        SwitchAction::AppendFailure | SwitchAction::PublishFailure => switch.failure is Some,
        SwitchAction::MarkFatal => switch.failure matches Some(error) && error.fatal,
        _ => switch.failure is None,
    }
}

/// The reply answers the action.
pub open spec fn switch_reply_fits(action: SwitchAction, reply: SwitchReply) -> bool {
    match action {
        SwitchAction::ReadFatal => reply is Stopped || reply is Failed,
        SwitchAction::AppendSuccess => reply is Appended,
        _ => reply is Done || reply is Failed,
    }
}

/// The answer to a switch that failed: a fatal error stops the host first.
pub open spec fn switch_failed(error: RuntimeHostError) -> SwitchProgress {
    if error.fatal {
        SwitchProgress::Next(ReleaseSwitch { action: SwitchAction::MarkFatal, failure: Some(error) })
    } else {
        SwitchProgress::End(Err(error))
    }
}

pub open spec fn undurable_failure() -> RuntimeHostError {
    fatal_error(
        "release_failure_fact_undurable",
        "switch_release_set",
        RuntimeErrorCode::LedgerFailure,
    )
}

/// The action after one that only has to succeed.
pub open spec fn switch_order(action: SwitchAction) -> SwitchAction {
    match action {
        SwitchAction::TakeGate => SwitchAction::ReadFatal,
        SwitchAction::ReadFatal => SwitchAction::VerifyReady,
        SwitchAction::VerifyReady => SwitchAction::PreviewTransition,
        SwitchAction::PreviewTransition => SwitchAction::ReadManifest,
        SwitchAction::ReadManifest => SwitchAction::AppendIntent,
        SwitchAction::AppendIntent => SwitchAction::PrepareSuccess,
        SwitchAction::PrepareSuccess => SwitchAction::AppendSuccess,
        SwitchAction::AppendFailure => SwitchAction::PublishFailure,
        _ => SwitchAction::PublishSuccess,
    }
}

/// The step after a reply.
pub open spec fn switch_step(switch: ReleaseSwitch, reply: SwitchReply) -> SwitchProgress {
    let next = SwitchProgress::Next(
        ReleaseSwitch { action: switch_order(switch.action), ..switch },
    );
    match (switch.action, reply) {
        (SwitchAction::MarkFatal, SwitchReply::Failed(error)) => SwitchProgress::End(Err(error)),
        (SwitchAction::MarkFatal, _) => SwitchProgress::End(Err(switch.failure->0)),
        (SwitchAction::AppendFailure, SwitchReply::Failed(_))
        | (SwitchAction::PublishFailure, SwitchReply::Failed(_)) => switch_failed(
            undurable_failure(),
        ),
        (SwitchAction::PublishFailure, _) => switch_failed(switch.failure->0),
        (SwitchAction::PublishSuccess, SwitchReply::Failed(error)) => switch_failed(
            RuntimeHostError { fatal: true, ..error },
        ),
        (SwitchAction::PublishSuccess, _) => SwitchProgress::End(Ok(())),
        (_, SwitchReply::Failed(error)) => switch_failed(error),
        (_, SwitchReply::Stopped(Some(error))) => switch_failed(error),
        (_, SwitchReply::Appended(append)) => match append {
            TransitionAppend::Appended => next,
            TransitionAppend::RolledBack { .. } => SwitchProgress::Next(
                ReleaseSwitch { action: SwitchAction::AppendFailure, failure: append_error(append) },
            ),
            TransitionAppend::LedgerFailed { .. } => switch_failed(append_error(append)->0),
        },
        _ => next,
    }
}

fn fail_switch(error: RuntimeHostError) -> (progress: SwitchProgress)
    ensures
        progress == switch_failed(error),
{
    if error.is_fatal() {
        SwitchProgress::Next(ReleaseSwitch { action: SwitchAction::MarkFatal, failure: Some(error) })
    } else {
        SwitchProgress::End(Err(error))
    }
}

impl ReleaseSwitch {
    pub fn new() -> (switch: Self)
        ensures
            switch == (ReleaseSwitch { action: SwitchAction::TakeGate, failure: None }),
            switch_wf(switch),
    {
        ReleaseSwitch { action: SwitchAction::TakeGate, failure: None }
    }

    fn next(self) -> (progress: SwitchProgress)
        ensures
            progress == SwitchProgress::Next(
                ReleaseSwitch { action: switch_order(self.action), ..self },
            ),
    {
        let action = match self.action {
            SwitchAction::TakeGate => SwitchAction::ReadFatal,
            SwitchAction::ReadFatal => SwitchAction::VerifyReady,
            SwitchAction::VerifyReady => SwitchAction::PreviewTransition,
            SwitchAction::PreviewTransition => SwitchAction::ReadManifest,
            SwitchAction::ReadManifest => SwitchAction::AppendIntent,
            SwitchAction::AppendIntent => SwitchAction::PrepareSuccess,
            SwitchAction::PrepareSuccess => SwitchAction::AppendSuccess,
            SwitchAction::AppendFailure => SwitchAction::PublishFailure,
            _ => SwitchAction::PublishSuccess,
        };
        SwitchProgress::Next(ReleaseSwitch { action, failure: self.failure })
    }

    /// Takes the reply to the current action.
    pub fn advance(self, reply: SwitchReply) -> (progress: SwitchProgress)
        requires
            switch_wf(self),
            switch_reply_fits(self.action, reply),
        ensures
            progress == switch_step(self, reply),
            progress matches SwitchProgress::Next(next) ==> switch_wf(next),
    {
        match self.action {
            SwitchAction::MarkFatal => match reply {
                SwitchReply::Failed(error) => SwitchProgress::End(Err(error)),
                _ => SwitchProgress::End(Err(self.failure.unwrap())),
            },
            SwitchAction::AppendFailure => match reply {
                SwitchReply::Failed(_) => fail_switch(release_failure_error()),
                _ => self.next(),
            },
            SwitchAction::PublishFailure => match reply {
                SwitchReply::Failed(_) => fail_switch(release_failure_error()),
                _ => fail_switch(self.failure.unwrap()),
            },
            SwitchAction::PublishSuccess => match reply {
                SwitchReply::Failed(error) => fail_switch(error.into_fatal()),
                _ => SwitchProgress::End(Ok(())),
            },
            _ => match reply {
                SwitchReply::Failed(error) => fail_switch(error),
                SwitchReply::Stopped(Some(error)) => fail_switch(error),
                SwitchReply::Appended(append) => match (append, release_transaction_error(append)) {
                    (TransitionAppend::RolledBack { .. }, Some(error)) => SwitchProgress::Next(
                        ReleaseSwitch { action: SwitchAction::AppendFailure, failure: Some(error) },
                    ),
                    (_, Some(error)) => fail_switch(error),
                    (_, None) => self.next(),
                },
                _ => self.next(),
            },
        }
    }
}

/// A switch succeeds only once its success was appended with the change of
/// the state and published.
pub proof fn law_switched_release_is_published(switch: ReleaseSwitch, reply: SwitchReply)
    requires
        switch_wf(switch),
        switch_reply_fits(switch.action, reply),
    ensures
        switch_step(switch, reply) == SwitchProgress::End(Ok(())) ==> switch.action
            == SwitchAction::PublishSuccess && reply is Done,
        switch_step(switch, reply) matches SwitchProgress::Next(next) && next.action
            == SwitchAction::PublishSuccess ==> reply == SwitchReply::Appended(
            TransitionAppend::Appended,
        ),
{
}

/// A change that the state refused is answered with the refusal only after
/// the failure was appended and published; where that fails the host stops.
pub proof fn law_refused_switch_is_recorded(switch: ReleaseSwitch, reply: SwitchReply)
    requires
        switch.action == SwitchAction::AppendFailure || switch.action
            == SwitchAction::PublishFailure,
        switch_wf(switch),
        switch_reply_fits(switch.action, reply),
    ensures
        reply is Failed ==> switch_step(switch, reply) == SwitchProgress::Next(
            ReleaseSwitch { action: SwitchAction::MarkFatal, failure: Some(undurable_failure()) },
        ),
        switch_step(switch, reply) matches SwitchProgress::End(end) ==> switch.action
            == SwitchAction::PublishFailure && reply is Done && end == Err::<(), _>(
            switch.failure->0,
        ),
{
}

/// A switch that is answered with a fatal error has tried to stop the host.
pub proof fn law_fatal_switch_stops_the_host(switch: ReleaseSwitch, reply: SwitchReply)
    requires
        switch_wf(switch),
        switch_reply_fits(switch.action, reply),
        switch_step(switch, reply) matches SwitchProgress::End(Err(error)) && error.fatal,
    ensures
        switch.action == SwitchAction::MarkFatal,
{
}

/// The next thing to do while a release is staged.
#[derive(Debug, Clone, Copy, PartialEq, Eq, Structural)]
pub enum StageAction {
    TakeGate,
    /// Ask whether the host has stopped.
    ReadFatal,
    /// Prepare the stage, and learn whether there is anything to write.
    PrepareStage,
    PrepareEvent,
    /// Lock the facts; refused where an earlier append did not succeed.
    TakeFactGate,
    /// Append the event together with the change of the state.
    AppendStaged,
    ObserveDiagnostics,
    SynchronizeFacts,
    ObservePipeline,
    /// Stop the host.
    MarkFatal,
}

/// What an action of a stage gave.
#[derive(Debug, Clone, Copy)]
pub enum StageReply {
    Done,
    Failed(RuntimeHostError),
    /// The error with which the host stopped, if it did.
    Stopped(Option<RuntimeHostError>),
    /// Whether there is anything to write.
    Needed(bool),
    Appended(TransitionAppend),
}

/// A stage in progress.
#[derive(Debug, Clone, Copy)]
pub struct ReleaseStage {
    pub action: StageAction,
    /// The error that the stage is answered with, once there is one.
    pub failure: Option<RuntimeHostError>,
}

/// A stage that goes on, or its result: the manifest that was given, or an
/// error.
#[derive(Debug, Clone, Copy)]
pub enum StageProgress {
    Next(ReleaseStage),
    End(RuntimeHostResult<()>),
}

pub open spec fn stage_wf(stage: ReleaseStage) -> bool {
    if stage.action == StageAction::MarkFatal {
        stage.failure matches Some(error) && error.fatal
    } else {
        stage.failure is None
    }
}

/// The reply answers the action.
pub open spec fn stage_reply_fits(action: StageAction, reply: StageReply) -> bool {
    reply is Failed || match action {
        StageAction::ReadFatal => reply is Stopped,
        StageAction::PrepareStage => reply is Needed,
        StageAction::AppendStaged => reply is Appended,
        _ => reply is Done,
    }
}

pub open spec fn stage_failed(error: RuntimeHostError) -> StageProgress {
    if error.fatal {
        StageProgress::Next(ReleaseStage { action: StageAction::MarkFatal, failure: Some(error) })
    } else {
        StageProgress::End(Err(error))
    }
}

/// The step after a reply.
pub open spec fn stage_step(stage: ReleaseStage, reply: StageReply) -> StageProgress {
    let next = |action: StageAction| StageProgress::Next(ReleaseStage { action, ..stage });
    match (stage.action, reply) {
        (StageAction::MarkFatal, StageReply::Failed(error)) => StageProgress::End(Err(error)),
        (StageAction::MarkFatal, _) => StageProgress::End(Err(stage.failure->0)),
        (_, StageReply::Failed(error)) => stage_failed(error),
        (_, StageReply::Stopped(Some(error))) => stage_failed(error),
        (_, StageReply::Needed(false)) => StageProgress::End(Ok(())),
        (_, StageReply::Appended(append)) => match append_error(append) {
            Some(error) => stage_failed(error),
            None => next(StageAction::ObserveDiagnostics),
        },
        (StageAction::TakeGate, _) => next(StageAction::ReadFatal),
        (StageAction::ReadFatal, _) => next(StageAction::PrepareStage),
        (StageAction::PrepareStage, _) => next(StageAction::PrepareEvent),
        (StageAction::PrepareEvent, _) => next(StageAction::TakeFactGate),
        (StageAction::TakeFactGate, _) => next(StageAction::AppendStaged),
        (StageAction::ObserveDiagnostics, _) => next(StageAction::SynchronizeFacts),
        (StageAction::SynchronizeFacts, _) => next(StageAction::ObservePipeline),
        _ => StageProgress::End(Ok(())),
    }
}

fn fail_stage(error: RuntimeHostError) -> (progress: StageProgress)
    ensures
        progress == stage_failed(error),
{
    if error.is_fatal() {
        StageProgress::Next(ReleaseStage { action: StageAction::MarkFatal, failure: Some(error) })
    } else {
        StageProgress::End(Err(error))
    }
}

impl ReleaseStage {
    pub fn new() -> (stage: Self)
        ensures
            stage == (ReleaseStage { action: StageAction::TakeGate, failure: None }),
            stage_wf(stage),
    {
        ReleaseStage { action: StageAction::TakeGate, failure: None }
    }

    /// Takes the reply to the current action.
    pub fn advance(self, reply: StageReply) -> (progress: StageProgress)
        requires
            stage_wf(self),
            stage_reply_fits(self.action, reply),
        ensures
            progress == stage_step(self, reply),
            progress matches StageProgress::Next(next) ==> stage_wf(next),
    {
        if self.action == StageAction::MarkFatal {
            return match reply {
                StageReply::Failed(error) => StageProgress::End(Err(error)),
                _ => StageProgress::End(Err(self.failure.unwrap())),
            };
        }
        let action = match reply {
            StageReply::Failed(error) => {
                return fail_stage(error);
            },
            StageReply::Stopped(Some(error)) => {
                return fail_stage(error);
            },
            StageReply::Needed(false) => {
                return StageProgress::End(Ok(()));
            },
            StageReply::Appended(append) => match release_transaction_error(append) {
                Some(error) => {
                    return fail_stage(error);
                },
                None => StageAction::ObserveDiagnostics,
            },
            _ => match self.action {
                StageAction::TakeGate => StageAction::ReadFatal,
                StageAction::ReadFatal => StageAction::PrepareStage,
                StageAction::PrepareStage => StageAction::PrepareEvent,
                StageAction::PrepareEvent => StageAction::TakeFactGate,
                StageAction::TakeFactGate => StageAction::AppendStaged,
                StageAction::ObserveDiagnostics => StageAction::SynchronizeFacts,
                StageAction::SynchronizeFacts => StageAction::ObservePipeline,
                _ => {
                    return StageProgress::End(Ok(()));
                },
            },
        };
        StageProgress::Next(ReleaseStage { action, failure: self.failure })
    }
}

/// A stage succeeds only where there was nothing to write, or once the event
/// was appended with the change of the state and observed.
pub proof fn law_staged_release_is_recorded(stage: ReleaseStage, reply: StageReply)
    requires
        stage_wf(stage),
        stage_reply_fits(stage.action, reply),
    ensures
        stage_step(stage, reply) == StageProgress::End(Ok(())) ==> reply == StageReply::Needed(
            false,
        ) || (stage.action == StageAction::ObservePipeline && reply is Done),
        stage_step(stage, reply) matches StageProgress::Next(next) && next.action
            == StageAction::ObserveDiagnostics ==> reply == StageReply::Appended(
            TransitionAppend::Appended,
        ),
        stage_step(stage, reply) matches StageProgress::End(Err(error)) && error.fatal
            ==> stage.action == StageAction::MarkFatal,
{
}

/// The events that are read from the ledger together.
#[derive(Debug, Clone, Copy, PartialEq, Eq, Structural)]
pub enum FactKind {
    StateMigrated,
    Release(ReleaseEventType),
    TransitionIntent,
    TransitionFailed,
}

/// What the ledger is read for.
#[derive(Debug, Clone, Copy, PartialEq, Eq, Structural)]
pub enum ReadPurpose {
    /// To find the event of the baseline.
    Boundary,
    /// To find the event of a member.
    Member,
    /// To find the completion of an intent.
    Completion,
    /// To find the failure of an intent.
    Failure,
    /// To verify each fact of a type.
    Facts(ReleaseEventType),
    /// To reconcile each intent.
    Intents,
}

/// The next thing to do while the release state is recovered.
#[derive(Debug, Clone, Copy, PartialEq, Eq, Structural)]
pub enum RecoveryAction {
    /// Read the ledger's latest sequence, up to which events of a kind will be
    /// read.
    ReadCut(FactKind, ReadPurpose),
    /// Read the next page of events of a kind.
    ReadPage(FactKind, ReadPurpose),
    /// Prepare the baseline, given the event that was found.
    PrepareBoundary,
    AppendBoundary,
    /// Read the members of the baseline.
    ReadMembers,
    /// Prepare a member, given the event that was found.
    PrepareMember,
    /// Read the manifest of a member.
    ReadManifest,
    AppendMember,
    VerifyReady,
    /// Verify that the state holds a fact.
    VerifyFact(ReleaseEventType),
    /// Check an outcome against its intent.
    CheckOutcome(IntentCheck),
    /// Verify that the state holds a completion.
    VerifyOutcome,
}

/// What an action of a recovery gave.
#[derive(Debug)]
pub enum RecoveryReply {
    Done,
    Failed(RuntimeHostError),
    /// The ledger's latest sequence.
    Cut(u64),
    /// Events after those that were read; none where there are no more.
    Page(Vec<ReleaseEvent>),
    /// Whether the baseline has to be written, and whether its migration is
    /// known.
    Boundary { needed: bool, migration: bool },
    Members(Vec<ReleaseBaselineMember>),
    /// Whether a member has to be written.
    Needed(bool),
    Appended(TransitionAppend),
    /// Whether an outcome is that of its intent.
    Valid(bool),
}

/// A recovery in progress.
#[derive(Debug)]
pub struct ReleaseRecovery {
    pub action: RecoveryAction,
    pub members: Vec<ReleaseBaselineMember>,
    /// The member that is being written.
    pub member: usize,
    /// The search that is going on, or the last one.
    pub search: FactSearch,
    /// The completion that was found for the intent.
    pub completion: Option<ReleaseEvent>,
    /// The cut of the facts, later of the intents, that are being visited.
    pub through: u64,
    /// The sequence up to which they were read before the page.
    pub after: u64,
    pub page: Vec<ReleaseEvent>,
    /// The event of the page that is being visited.
    pub position: usize,
}

#[verifier::ext_equal]
pub struct ReleaseRecoveryView {
    pub action: RecoveryAction,
    pub members: Seq<ReleaseBaselineMember>,
    pub member: int,
    pub search: FactSearch,
    pub completion: Option<ReleaseEvent>,
    pub through: u64,
    pub after: u64,
    pub page: Seq<ReleaseEvent>,
    pub position: int,
}

impl View for ReleaseRecovery {
    type V = ReleaseRecoveryView;

    open spec fn view(&self) -> ReleaseRecoveryView {
        ReleaseRecoveryView {
            action: self.action,
            members: self.members@,
            member: self.member as int,
            search: self.search,
            completion: self.completion,
            through: self.through,
            after: self.after,
            page: self.page@,
            position: self.position as int,
        }
    }
}

/// A recovery that goes on, or its result.
#[derive(Debug)]
pub enum RecoveryProgress {
    Next(ReleaseRecovery),
    End(RuntimeHostResult<()>),
}

pub enum RecoveryProgressView {
    Next(ReleaseRecoveryView),
    End(RuntimeHostResult<()>),
}

impl View for RecoveryProgress {
    type V = RecoveryProgressView;

    open spec fn view(&self) -> RecoveryProgressView {
        match *self {
            RecoveryProgress::Next(recovery) => RecoveryProgressView::Next(recovery@),
            RecoveryProgress::End(end) => RecoveryProgressView::End(end),
        }
    }
}

/// The fact that the ledger must hold for a member of the baseline.
pub open spec fn member_fact(member: ReleaseBaselineMember) -> Result<
    (ReleaseEventType, Seq<char>),
    RuntimeHostError,
> {
    match member {
        ReleaseBaselineMember::Generation { release_id } => Ok(
            (ReleaseEventType::Staged, release_id@),
        ),
        ReleaseBaselineMember::Transition { transition } => Ok(
            (outcome_type(transition.kind), transition.transition_id@),
        ),
        ReleaseBaselineMember::Pointer => Err(recovery_error("release_recovery_member_invalid")),
    }
}

/// A member stands at the recovery's place.
pub open spec fn at_member(recovery: ReleaseRecoveryView) -> bool {
    recovery.member < recovery.members.len() && member_fact(
        recovery.members[recovery.member],
    ) is Ok
}

/// An event stands at the recovery's place in the page.
pub open spec fn at_event(recovery: ReleaseRecoveryView) -> bool {
    recovery.position < recovery.page.len()
}

/// An intent of the runtime stands at the recovery's place in the page.
pub open spec fn at_intent(recovery: ReleaseRecoveryView) -> bool {
    at_event(recovery) && intent_outcome_type(recovery.page[recovery.position]) is Ok
}

/// The events of a kind are read for a purpose that they serve.
pub open spec fn purpose_fits(
    recovery: ReleaseRecoveryView,
    kind: FactKind,
    purpose: ReadPurpose,
) -> bool {
    match purpose {
        ReadPurpose::Boundary => kind == FactKind::StateMigrated,
        ReadPurpose::Member => at_member(recovery) && kind == FactKind::Release(
            (member_fact(recovery.members[recovery.member])->Ok_0).0,
        ),
        ReadPurpose::Completion => at_intent(recovery) && kind == FactKind::Release(
            intent_outcome_type(recovery.page[recovery.position])->Ok_0,
        ),
        ReadPurpose::Failure => at_intent(recovery) && kind == FactKind::TransitionFailed,
        ReadPurpose::Facts(event_type) => kind == FactKind::Release(event_type),
        ReadPurpose::Intents => kind == FactKind::TransitionIntent,
    }
}

pub open spec fn recovery_wf(recovery: ReleaseRecoveryView) -> bool {
    &&& 0 <= recovery.member
    &&& 0 <= recovery.position
    &&& match recovery.action {
        RecoveryAction::ReadCut(kind, purpose) => purpose_fits(recovery, kind, purpose),
        RecoveryAction::ReadPage(kind, purpose) => purpose_fits(recovery, kind, purpose),
        RecoveryAction::PrepareMember
        | RecoveryAction::ReadManifest
        | RecoveryAction::AppendMember => at_member(recovery),
        RecoveryAction::VerifyFact(_) => at_event(recovery),
        RecoveryAction::CheckOutcome(check) => at_intent(recovery) && !(check is Recovered)
            && intent_resolution(
            recovery.page[recovery.position],
            recovery.completion,
            recovery.search.found,
        ) == Ok::<_, RuntimeHostError>(check),
        RecoveryAction::VerifyOutcome => at_intent(recovery) && (intent_resolution(
            recovery.page[recovery.position],
            recovery.completion,
            recovery.search.found,
        ) matches Ok(check) && !(check is Failed)),
        _ => true,
    }
}

/// The reply answers the action.
pub open spec fn recovery_reply_fits(action: RecoveryAction, reply: RecoveryReply) -> bool {
    match action {
        RecoveryAction::ReadCut(..) => reply is Cut || reply is Failed,
        RecoveryAction::ReadPage(..) => reply is Page || reply is Failed,
        RecoveryAction::PrepareBoundary => reply is Boundary || reply is Failed,
        RecoveryAction::AppendBoundary
        | RecoveryAction::AppendMember => reply is Appended || reply is Failed,
        RecoveryAction::ReadMembers => reply is Members || reply is Failed,
        RecoveryAction::PrepareMember => reply is Needed || reply is Failed,
        RecoveryAction::CheckOutcome(_) => reply is Valid,
        _ => reply is Done || reply is Failed,
    }
}

pub open spec fn recovery_failed(code: &'static str) -> RecoveryProgressView {
    RecoveryProgressView::End(Err(recovery_error(code)))
}

/// What follows once the members before a position are in the ledger.
pub open spec fn enter_member(recovery: ReleaseRecoveryView, member: int) -> RecoveryProgressView {
    if member >= recovery.members.len() {
        RecoveryProgressView::Next(
            ReleaseRecoveryView { action: RecoveryAction::VerifyReady, member, ..recovery },
        )
    } else {
        match member_fact(recovery.members[member]) {
            Err(error) => RecoveryProgressView::End(Err(error)),
            Ok((event_type, _)) => RecoveryProgressView::Next(
                ReleaseRecoveryView {
                    action: RecoveryAction::ReadCut(
                        FactKind::Release(event_type),
                        ReadPurpose::Member,
                    ),
                    member,
                    ..recovery
                },
            ),
        }
    }
}

/// The action after all facts of a type are verified.
pub open spec fn after_facts(event_type: ReleaseEventType) -> RecoveryAction {
    match event_type {
        ReleaseEventType::Staged => visit_facts(ReleaseEventType::Activated),
        ReleaseEventType::Activated => visit_facts(ReleaseEventType::RolledBack),
        ReleaseEventType::RolledBack => RecoveryAction::ReadCut(
            FactKind::TransitionIntent,
            ReadPurpose::Intents,
        ),
    }
}

/// The action that begins to visit the facts of a type.
pub open spec fn visit_facts(event_type: ReleaseEventType) -> RecoveryAction {
    RecoveryAction::ReadCut(FactKind::Release(event_type), ReadPurpose::Facts(event_type))
}

/// What follows once the facts of the page before a position are verified.
pub open spec fn enter_fact(
    recovery: ReleaseRecoveryView,
    event_type: ReleaseEventType,
    position: int,
) -> RecoveryProgressView {
    if position >= recovery.page.len() {
        RecoveryProgressView::Next(
            ReleaseRecoveryView {
                action: RecoveryAction::ReadPage(
                    FactKind::Release(event_type),
                    ReadPurpose::Facts(event_type),
                ),
                after: read_up_to(recovery.page, recovery.after),
                position,
                ..recovery
            },
        )
    } else if !cursor_valid(recovery.page, recovery.after, recovery.through, position) {
        recovery_failed("release_recovery_cursor_invalid")
    } else {
        RecoveryProgressView::Next(
            ReleaseRecoveryView {
                action: RecoveryAction::VerifyFact(event_type),
                position,
                ..recovery
            },
        )
    }
}

/// What follows once the intents of the page before a position are reconciled.
pub open spec fn enter_intent(recovery: ReleaseRecoveryView, position: int) -> RecoveryProgressView {
    if position >= recovery.page.len() {
        RecoveryProgressView::Next(
            ReleaseRecoveryView {
                action: RecoveryAction::ReadPage(FactKind::TransitionIntent, ReadPurpose::Intents),
                after: read_up_to(recovery.page, recovery.after),
                position,
                ..recovery
            },
        )
    } else if !cursor_valid(recovery.page, recovery.after, recovery.through, position) {
        recovery_failed("release_recovery_cursor_invalid")
    } else {
        match intent_outcome_type(recovery.page[position]) {
            Err(error) => RecoveryProgressView::End(Err(error)),
            Ok(event_type) => RecoveryProgressView::Next(
                ReleaseRecoveryView {
                    action: RecoveryAction::ReadCut(
                        FactKind::Release(event_type),
                        ReadPurpose::Completion,
                    ),
                    position,
                    ..recovery
                },
            ),
        }
    }
}

/// The identity of the transition that the intent at the recovery's place is
/// about.
pub open spec fn intent_identity(recovery: ReleaseRecoveryView) -> Seq<char> {
    recovery.page[recovery.position].payload->TransitionIntent_transition.transition_id@
}

/// What is looked for.
pub open spec fn recovery_query(
    recovery: ReleaseRecoveryView,
    baseline_key: Seq<char>,
    purpose: ReadPurpose,
) -> FactQueryView {
    match purpose {
        ReadPurpose::Boundary => FactQueryView::Migration(baseline_key),
        ReadPurpose::Member => FactQueryView::Identity(
            (member_fact(recovery.members[recovery.member])->Ok_0).1,
        ),
        ReadPurpose::Failure => FactQueryView::OfAction(
            intent_identity(recovery),
            recovery.page[recovery.position],
        ),
        _ => FactQueryView::Identity(intent_identity(recovery)),
    }
}

/// The step once a search has come to its end.
pub open spec fn after_search(recovery: ReleaseRecoveryView, purpose: ReadPurpose) -> RecoveryProgressView {
    let next = |action: RecoveryAction|
        RecoveryProgressView::Next(ReleaseRecoveryView { action, ..recovery });
    match purpose {
        ReadPurpose::Boundary => next(RecoveryAction::PrepareBoundary),
        ReadPurpose::Member => next(RecoveryAction::PrepareMember),
        ReadPurpose::Completion => RecoveryProgressView::Next(
            ReleaseRecoveryView {
                action: RecoveryAction::ReadCut(FactKind::TransitionFailed, ReadPurpose::Failure),
                completion: recovery.search.found,
                search: FactSearch { found: None, ..recovery.search },
                ..recovery
            },
        ),
        _ => match intent_resolution(
            recovery.page[recovery.position],
            recovery.completion,
            recovery.search.found,
        ) {
            Err(error) => RecoveryProgressView::End(Err(error)),
            Ok(IntentCheck::Recovered) => next(RecoveryAction::VerifyOutcome),
            Ok(check) => next(RecoveryAction::CheckOutcome(check)),
        },
    }
}

/// The step after the ledger's latest sequence was read.
pub open spec fn after_cut(
    recovery: ReleaseRecoveryView,
    kind: FactKind,
    purpose: ReadPurpose,
    through: u64,
) -> RecoveryProgressView {
    let action = RecoveryAction::ReadPage(kind, purpose);
    match purpose {
        ReadPurpose::Facts(_) | ReadPurpose::Intents => RecoveryProgressView::Next(
            ReleaseRecoveryView { action, through, after: 0, ..recovery },
        ),
        _ => RecoveryProgressView::Next(
            ReleaseRecoveryView {
                action,
                search: FactSearch { through, after: 0, found: None },
                ..recovery
            },
        ),
    }
}

/// The step after a page was read: no event of a later page is asked for
/// before those of this one are behind.
pub open spec fn after_page(
    recovery: ReleaseRecoveryView,
    baseline_key: Seq<char>,
    purpose: ReadPurpose,
    page: Seq<ReleaseEvent>,
) -> RecoveryProgressView {
    match purpose {
        ReadPurpose::Facts(event_type) => if page.len() == 0 {
            RecoveryProgressView::Next(
                ReleaseRecoveryView { action: after_facts(event_type), ..recovery },
            )
        } else {
            enter_fact(ReleaseRecoveryView { page, ..recovery }, event_type, 0)
        },
        ReadPurpose::Intents => if page.len() == 0 {
            RecoveryProgressView::End(Ok(()))
        } else {
            enter_intent(ReleaseRecoveryView { page, ..recovery }, 0)
        },
        _ => if page.len() == 0 {
            after_search(recovery, purpose)
        } else {
            match searched(
                recovery.search,
                page,
                recovery_query(recovery, baseline_key, purpose),
            ) {
                Err(error) => RecoveryProgressView::End(Err(error)),
                Ok(search) => RecoveryProgressView::Next(
                    ReleaseRecoveryView { search, ..recovery },
                ),
            }
        },
    }
}

/// The step after a reply. `baseline_key` is the key of the release baseline
/// among the states.
pub open spec fn recovery_step(
    recovery: ReleaseRecoveryView,
    baseline_key: Seq<char>,
    reply: RecoveryReply,
) -> RecoveryProgressView {
    let next = |action: RecoveryAction|
        RecoveryProgressView::Next(ReleaseRecoveryView { action, ..recovery });
    match (recovery.action, reply) {
        (_, RecoveryReply::Failed(error)) => RecoveryProgressView::End(Err(error)),
        (RecoveryAction::ReadCut(kind, purpose), RecoveryReply::Cut(through)) => after_cut(
            recovery,
            kind,
            purpose,
            through,
        ),
        (RecoveryAction::ReadPage(_, purpose), RecoveryReply::Page(page)) => after_page(
            recovery,
            baseline_key,
            purpose,
            page@,
        ),
        (RecoveryAction::PrepareBoundary, RecoveryReply::Boundary { needed, migration }) => if !needed {
            next(RecoveryAction::ReadMembers)
        } else if !migration {
            recovery_failed("release_boundary_migration_missing")
        } else {
            next(RecoveryAction::AppendBoundary)
        },
        (_, RecoveryReply::Appended(append)) => match append_error(append) {
            Some(error) => RecoveryProgressView::End(Err(error)),
            None => if recovery.action == RecoveryAction::AppendBoundary {
                next(RecoveryAction::ReadMembers)
            } else {
                enter_member(recovery, recovery.member + 1)
            },
        },
        (RecoveryAction::ReadMembers, RecoveryReply::Members(members)) => enter_member(
            ReleaseRecoveryView { members: members@, ..recovery },
            0,
        ),
        (RecoveryAction::PrepareMember, RecoveryReply::Needed(needed)) => if !needed {
            enter_member(recovery, recovery.member + 1)
        } else if recovery.members[recovery.member] is Generation {
            next(RecoveryAction::ReadManifest)
        } else {
            next(RecoveryAction::AppendMember)
        },
        (RecoveryAction::ReadManifest, _) => next(RecoveryAction::AppendMember),
        (RecoveryAction::VerifyReady, _) => next(visit_facts(ReleaseEventType::Staged)),
        (RecoveryAction::VerifyFact(event_type), _) => enter_fact(
            recovery,
            event_type,
            recovery.position + 1,
        ),
        (RecoveryAction::CheckOutcome(check), RecoveryReply::Valid(valid)) => match check {
            IntentCheck::Completed => if valid {
                next(RecoveryAction::VerifyOutcome)
            } else {
                recovery_failed("release_outcome_identity_mismatch")
            },
            _ => if valid {
                enter_intent(recovery, recovery.position + 1)
            } else {
                recovery_failed("release_failure_identity_mismatch")
            },
        },
        _ => enter_intent(recovery, recovery.position + 1),
    }
}

impl ReleaseRecovery {
    pub fn new() -> (recovery: Self)
        ensures
            recovery.action == RecoveryAction::ReadCut(
                FactKind::StateMigrated,
                ReadPurpose::Boundary,
            ),
            recovery_wf(recovery@),
    {
        ReleaseRecovery {
            action: RecoveryAction::ReadCut(FactKind::StateMigrated, ReadPurpose::Boundary),
            members: Vec::new(),
            member: 0,
            search: FactSearch { through: 0, after: 0, found: None },
            completion: None,
            through: 0,
            after: 0,
            page: Vec::new(),
            position: 0,
        }
    }

    fn go(self, action: RecoveryAction) -> (progress: RecoveryProgress)
        ensures
            progress@ == RecoveryProgressView::Next(ReleaseRecoveryView { action, ..self@ }),
    {
        RecoveryProgress::Next(ReleaseRecovery { action, ..self })
    }

    fn into_member(self, member: usize) -> (progress: RecoveryProgress)
        requires
            recovery_wf(self@),
        ensures
            progress@ == enter_member(self@, member as int),
            progress matches RecoveryProgress::Next(next) ==> recovery_wf(next@),
    {
        let mut recovery = self;
        recovery.member = member;
        if member >= recovery.members.len() {
            return recovery.go(RecoveryAction::VerifyReady);
        }
        let fact = match baseline_fact(&recovery.members[member]) {
            Ok((event_type, _)) => Ok(event_type),
            Err(error) => Err(error),
        };
        match fact {
            Ok(event_type) => recovery.go(
                RecoveryAction::ReadCut(FactKind::Release(event_type), ReadPurpose::Member),
            ),
            Err(error) => RecoveryProgress::End(Err(error)),
        }
    }

    /// The event at a position of the page comes in order.
    fn in_order(&self, position: usize) -> (valid: bool)
        requires
            position < self.page@.len(),
        ensures
            valid == cursor_valid(self.page@, self.after, self.through, position as int),
    {
        let reached: u64 = if position == 0 {
            self.after
        } else {
            self.page[position - 1].sequence
        };
        let sequence = self.page[position].sequence;
        reached < sequence && sequence <= self.through
    }

    /// The page is behind.
    fn past_page(self, kind: FactKind, purpose: ReadPurpose) -> (progress: RecoveryProgress)
        ensures
            progress@ == RecoveryProgressView::Next(
                ReleaseRecoveryView {
                    action: RecoveryAction::ReadPage(kind, purpose),
                    after: read_up_to(self.page@, self.after),
                    ..self@
                },
            ),
    {
        let mut recovery = self;
        if recovery.page.len() > 0 {
            recovery.after = recovery.page[recovery.page.len() - 1].sequence;
        }
        recovery.go(RecoveryAction::ReadPage(kind, purpose))
    }

    fn into_fact(self, event_type: ReleaseEventType, position: usize) -> (progress: RecoveryProgress)
        requires
            recovery_wf(self@),
        ensures
            progress@ == enter_fact(self@, event_type, position as int),
            progress matches RecoveryProgress::Next(next) ==> recovery_wf(next@),
    {
        let mut recovery = self;
        recovery.position = position;
        if position >= recovery.page.len() {
            recovery.past_page(FactKind::Release(event_type), ReadPurpose::Facts(event_type))
        } else if !recovery.in_order(position) {
            RecoveryProgress::End(Err(release_recovery_error("release_recovery_cursor_invalid")))
        } else {
            recovery.go(RecoveryAction::VerifyFact(event_type))
        }
    }

    fn into_intent(self, position: usize) -> (progress: RecoveryProgress)
        requires
            recovery_wf(self@),
        ensures
            progress@ == enter_intent(self@, position as int),
            progress matches RecoveryProgress::Next(next) ==> recovery_wf(next@),
    {
        let mut recovery = self;
        recovery.position = position;
        if position >= recovery.page.len() {
            return recovery.past_page(FactKind::TransitionIntent, ReadPurpose::Intents);
        }
        if !recovery.in_order(position) {
            return RecoveryProgress::End(
                Err(release_recovery_error("release_recovery_cursor_invalid")),
            );
        }
        match check_intent(&recovery.page[position]) {
            Ok(event_type) => recovery.go(
                RecoveryAction::ReadCut(FactKind::Release(event_type), ReadPurpose::Completion),
            ),
            Err(error) => RecoveryProgress::End(Err(error)),
        }
    }

    fn after_member(self) -> (progress: RecoveryProgress)
        requires
            recovery_wf(self@),
            at_member(self@),
        ensures
            progress@ == enter_member(self@, self.member + 1),
            progress matches RecoveryProgress::Next(next) ==> recovery_wf(next@),
    {
        assert(self.member < self.members.len());
        let member = self.member;
        self.into_member(member + 1)
    }

    fn after_intent(self) -> (progress: RecoveryProgress)
        requires
            recovery_wf(self@),
            at_event(self@),
        ensures
            progress@ == enter_intent(self@, self.position + 1),
            progress matches RecoveryProgress::Next(next) ==> recovery_wf(next@),
    {
        assert(self.position < self.page.len());
        let position = self.position;
        self.into_intent(position + 1)
    }

    fn take_cut(self, kind: FactKind, purpose: ReadPurpose, through: u64) -> (progress:
        RecoveryProgress)
        requires
            recovery_wf(self@),
            purpose_fits(self@, kind, purpose),
        ensures
            progress@ == after_cut(self@, kind, purpose, through),
            progress matches RecoveryProgress::Next(next) ==> recovery_wf(next@),
    {
        let mut recovery = self;
        match purpose {
            ReadPurpose::Facts(_) | ReadPurpose::Intents => {
                recovery.through = through;
                recovery.after = 0;
            },
            _ => {
                recovery.search = FactSearch { through, after: 0, found: None };
            },
        }
        recovery.go(RecoveryAction::ReadPage(kind, purpose))
    }

    fn end_search(self, purpose: ReadPurpose) -> (progress: RecoveryProgress)
        requires
            recovery_wf(self@),
            match purpose {
                ReadPurpose::Boundary => true,
                ReadPurpose::Member => at_member(self@),
                _ => at_intent(self@),
            },
        ensures
            progress@ == after_search(self@, purpose),
            progress matches RecoveryProgress::Next(next) ==> recovery_wf(next@),
    {
        let mut recovery = self;
        match purpose {
            ReadPurpose::Boundary => recovery.go(RecoveryAction::PrepareBoundary),
            ReadPurpose::Member => recovery.go(RecoveryAction::PrepareMember),
            ReadPurpose::Completion => {
                let search = recovery.search;
                recovery.search = FactSearch {
                    through: search.through,
                    after: search.after,
                    found: None,
                };
                recovery.completion = search.found;
                recovery.go(RecoveryAction::ReadCut(FactKind::TransitionFailed, ReadPurpose::Failure))
            },
            _ => match reconcile_intent(
                &recovery.page[recovery.position],
                &recovery.completion,
                &recovery.search.found,
            ) {
                Err(error) => RecoveryProgress::End(Err(error)),
                Ok(IntentCheck::Recovered) => recovery.go(RecoveryAction::VerifyOutcome),
                Ok(check) => recovery.go(RecoveryAction::CheckOutcome(check)),
            },
        }
    }

    /// Looks through a page.
    fn search_page(self, purpose: ReadPurpose, baseline_key: &str, page: Vec<ReleaseEvent>) -> (progress:
        RecoveryProgress)
        requires
            recovery_wf(self@),
            self.action matches RecoveryAction::ReadPage(_, reason) && reason == purpose,
            !(purpose is Facts) && !(purpose is Intents),
            page@.len() > 0,
        ensures
            progress@ == after_page(self@, baseline_key@, purpose, page@),
            progress matches RecoveryProgress::Next(next) ==> recovery_wf(next@),
    {
        let ReleaseRecovery {
            action,
            members,
            member,
            search,
            completion,
            through,
            after,
            page: visited,
            position,
        } = self;
        let result = match purpose {
            ReadPurpose::Boundary => find_release_fact(
                search,
                page,
                FactQuery::Migration(baseline_key),
            ),
            ReadPurpose::Member => match baseline_fact(&members[member]) {
                Ok((_, identity)) => find_release_fact(search, page, FactQuery::Identity(identity)),
                Err(error) => Err(error),
            },
            _ => {
                let intent = &visited[position];
                match &intent.payload {
                    ReleasePayload::TransitionIntent { transition } => {
                        let identity = transition.transition_id.as_str();
                        let query = match purpose {
                            ReadPurpose::Failure => FactQuery::OfAction(identity, intent),
                            _ => FactQuery::Identity(identity),
                        };
                        find_release_fact(search, page, query)
                    },
                    _ => Err(release_recovery_error("release_intent_payload_invalid")),
                }
            },
        };
        match result {
            Err(error) => RecoveryProgress::End(Err(error)),
            Ok(search) => RecoveryProgress::Next(
                ReleaseRecovery {
                    action,
                    members,
                    member,
                    search,
                    completion,
                    through,
                    after,
                    page: visited,
                    position,
                },
            ),
        }
    }

    fn take_page(self, purpose: ReadPurpose, baseline_key: &str, page: Vec<ReleaseEvent>) -> (progress:
        RecoveryProgress)
        requires
            recovery_wf(self@),
            self.action matches RecoveryAction::ReadPage(_, reason) && reason == purpose,
        ensures
            progress@ == after_page(self@, baseline_key@, purpose, page@),
            progress matches RecoveryProgress::Next(next) ==> recovery_wf(next@),
    {
        let mut recovery = self;
        match purpose {
            ReadPurpose::Facts(event_type) => {
                if page.len() == 0 {
                    return recovery.go(
                        match event_type {
                            ReleaseEventType::Staged => RecoveryAction::ReadCut(
                                FactKind::Release(ReleaseEventType::Activated),
                                ReadPurpose::Facts(ReleaseEventType::Activated),
                            ),
                            ReleaseEventType::Activated => RecoveryAction::ReadCut(
                                FactKind::Release(ReleaseEventType::RolledBack),
                                ReadPurpose::Facts(ReleaseEventType::RolledBack),
                            ),
                            ReleaseEventType::RolledBack => RecoveryAction::ReadCut(
                                FactKind::TransitionIntent,
                                ReadPurpose::Intents,
                            ),
                        },
                    );
                }
                recovery.page = page;
                recovery.into_fact(event_type, 0)
            },
            ReadPurpose::Intents => {
                if page.len() == 0 {
                    return RecoveryProgress::End(Ok(()));
                }
                recovery.page = page;
                recovery.into_intent(0)
            },
            _ => {
                if page.len() == 0 {
                    recovery.end_search(purpose)
                } else {
                    recovery.search_page(purpose, baseline_key, page)
                }
            },
        }
    }

    /// Takes the reply to the current action. `baseline_key` is the key of the
    /// release baseline among the states.
    pub fn advance(self, baseline_key: &str, reply: RecoveryReply) -> (progress: RecoveryProgress)
        requires
            recovery_wf(self@),
            recovery_reply_fits(self.action, reply),
        ensures
            progress@ == recovery_step(self@, baseline_key@, reply),
            progress matches RecoveryProgress::Next(next) ==> recovery_wf(next@),
    {
        let mut recovery = self;
        match reply {
            RecoveryReply::Failed(error) => RecoveryProgress::End(Err(error)),
            RecoveryReply::Cut(through) => match recovery.action {
                RecoveryAction::ReadCut(kind, purpose) => recovery.take_cut(kind, purpose, through),
                _ => recovery.after_intent(),
            },
            RecoveryReply::Page(page) => match recovery.action {
                RecoveryAction::ReadPage(_, purpose) => recovery.take_page(
                    purpose,
                    baseline_key,
                    page,
                ),
                _ => recovery.after_intent(),
            },
            RecoveryReply::Boundary { needed, migration } => {
                if !needed {
                    recovery.go(RecoveryAction::ReadMembers)
                } else if !migration {
                    RecoveryProgress::End(
                        Err(release_recovery_error("release_boundary_migration_missing")),
                    )
                } else {
                    recovery.go(RecoveryAction::AppendBoundary)
                }
            },
            RecoveryReply::Members(members) => {
                recovery.members = members;
                recovery.into_member(0)
            },
            RecoveryReply::Needed(needed) => {
                if !needed {
                    return recovery.after_member();
                }
                let generation = match &recovery.members[recovery.member] {
                    ReleaseBaselineMember::Generation { .. } => true,
                    _ => false,
                };
                if generation {
                    recovery.go(RecoveryAction::ReadManifest)
                } else {
                    recovery.go(RecoveryAction::AppendMember)
                }
            },
            RecoveryReply::Appended(append) => match release_transaction_error(append) {
                Some(error) => RecoveryProgress::End(Err(error)),
                None => {
                    if recovery.action == RecoveryAction::AppendBoundary {
                        recovery.go(RecoveryAction::ReadMembers)
                    } else {
                        recovery.after_member()
                    }
                },
            },
            RecoveryReply::Valid(valid) => {
                if let RecoveryAction::CheckOutcome(check) = recovery.action {
                    if let Err(error) = settle_intent(check, valid) {
                        return RecoveryProgress::End(Err(error));
                    }
                    if let IntentCheck::Completed = check {
                        return recovery.go(RecoveryAction::VerifyOutcome);
                    }
                }
                recovery.after_intent()
            },
            RecoveryReply::Done => match recovery.action {
                RecoveryAction::ReadManifest => recovery.go(RecoveryAction::AppendMember),
                RecoveryAction::VerifyReady => recovery.go(
                    RecoveryAction::ReadCut(
                        FactKind::Release(ReleaseEventType::Staged),
                        ReadPurpose::Facts(ReleaseEventType::Staged),
                    ),
                ),
                RecoveryAction::VerifyFact(event_type) => {
                    assert(recovery.position < recovery.page.len());
                    let position = recovery.position;
                    recovery.into_fact(event_type, position + 1)
                },
                _ => recovery.after_intent(),
            },
        }
    }
}

/// Recovery succeeds only where the ledger has no more intents, and leaves an
/// intent behind only where the ledger holds one outcome of it that resolves it
/// and that outcome was checked.
pub proof fn law_intents_are_passed_once_resolved(
    recovery: ReleaseRecoveryView,
    baseline_key: Seq<char>,
    reply: RecoveryReply,
)
    requires
        recovery_wf(recovery),
        recovery_reply_fits(recovery.action, reply),
    ensures
        recovery_step(recovery, baseline_key, reply) == RecoveryProgressView::End(Ok(())) ==> {
            recovery.action == RecoveryAction::ReadPage(
                FactKind::TransitionIntent,
                ReadPurpose::Intents,
            ) && (reply matches RecoveryReply::Page(page) && page@.len() == 0)
        },
        at_intent(recovery) && (recovery_step(recovery, baseline_key, reply)
            matches RecoveryProgressView::Next(next) && next.position > recovery.position)
            && !(recovery.action is VerifyFact) ==> {
            &&& intent_resolution(
                recovery.page[recovery.position],
                recovery.completion,
                recovery.search.found,
            ) is Ok
            &&& recovery.action == RecoveryAction::CheckOutcome(IntentCheck::Failed) && reply
                == RecoveryReply::Valid(true) || recovery.action == RecoveryAction::VerifyOutcome
                && reply is Done
        },
{
}

/// Nothing of the ledger's facts or intents is visited before the baseline and
/// all of its members stand in the ledger and the state is ready.
pub proof fn law_facts_are_read_from_ready_state(
    recovery: ReleaseRecoveryView,
    baseline_key: Seq<char>,
    reply: RecoveryReply,
)
    requires
        recovery_wf(recovery),
        recovery_reply_fits(recovery.action, reply),
        recovery_step(recovery, baseline_key, reply) matches RecoveryProgressView::Next(next)
            && next.action == visit_facts(ReleaseEventType::Staged),
    ensures
        recovery.action == RecoveryAction::VerifyReady,
        reply is Done,
{
}

/// While facts or intents are visited, the next page is asked for only once
/// every event of the one before was visited: what refuses one of them ends
/// the recovery before a later page is read.
pub proof fn law_pages_are_visited_in_turn(
    recovery: ReleaseRecoveryView,
    baseline_key: Seq<char>,
    reply: RecoveryReply,
)
    requires
        recovery_wf(recovery),
        recovery_reply_fits(recovery.action, reply),
        recovery_step(recovery, baseline_key, reply) matches RecoveryProgressView::Next(next)
            && next.action matches RecoveryAction::ReadPage(_, purpose) && (purpose is Facts
            || purpose is Intents),
    ensures
        recovery.action is ReadCut || {
            &&& recovery.position + 1 >= recovery.page.len()
            &&& recovery.action is VerifyFact || recovery.action is CheckOutcome
                || recovery.action is VerifyOutcome
        },
{
}

/// A switch takes its steps in order: its turn, whether the host has stopped,
/// whether the state is ready, what would change, its manifest, its intent, its
/// success, the append of it, and the publication.
pub proof fn law_switch_is_made_in_order(switch: ReleaseSwitch)
    requires
        switch.failure is None,
    ensures
        switch.action == SwitchAction::TakeGate ==> switch_step(switch, SwitchReply::Done)
            == SwitchProgress::Next(
            ReleaseSwitch { action: SwitchAction::ReadFatal, failure: None },
        ),
        switch.action == SwitchAction::ReadFatal ==> switch_step(switch, SwitchReply::Stopped(None))
            == SwitchProgress::Next(
            ReleaseSwitch { action: SwitchAction::VerifyReady, failure: None },
        ),
        switch.action == SwitchAction::VerifyReady ==> switch_step(switch, SwitchReply::Done)
            == SwitchProgress::Next(
            ReleaseSwitch { action: SwitchAction::PreviewTransition, failure: None },
        ),
        switch.action == SwitchAction::PreviewTransition ==> switch_step(switch, SwitchReply::Done)
            == SwitchProgress::Next(
            ReleaseSwitch { action: SwitchAction::ReadManifest, failure: None },
        ),
        switch.action == SwitchAction::ReadManifest ==> switch_step(switch, SwitchReply::Done)
            == SwitchProgress::Next(
            ReleaseSwitch { action: SwitchAction::AppendIntent, failure: None },
        ),
        switch.action == SwitchAction::AppendIntent ==> switch_step(switch, SwitchReply::Done)
            == SwitchProgress::Next(
            ReleaseSwitch { action: SwitchAction::PrepareSuccess, failure: None },
        ),
        switch.action == SwitchAction::PrepareSuccess ==> switch_step(switch, SwitchReply::Done)
            == SwitchProgress::Next(
            ReleaseSwitch { action: SwitchAction::AppendSuccess, failure: None },
        ),
        switch.action == SwitchAction::AppendSuccess ==> switch_step(
            switch,
            SwitchReply::Appended(TransitionAppend::Appended),
        ) == SwitchProgress::Next(
            ReleaseSwitch { action: SwitchAction::PublishSuccess, failure: None },
        ),
        switch.action == SwitchAction::PublishSuccess ==> switch_step(switch, SwitchReply::Done)
            == SwitchProgress::End(Ok(())),
{
}

/// A change that the state took back is told as the state tells it, after the
/// failure was appended and published.
pub proof fn law_refused_change_is_told(
    switch: ReleaseSwitch,
    code: &'static str,
    operation: &'static str,
)
    requires
        switch.action == SwitchAction::AppendSuccess,
        switch.failure is None,
    ensures
        switch_step(
            switch,
            SwitchReply::Appended(TransitionAppend::RolledBack { code, operation, fatal: false }),
        ) matches SwitchProgress::Next(first) && first.action == SwitchAction::AppendFailure && (
        switch_step(first, SwitchReply::Done) matches SwitchProgress::Next(second)
            && second.action == SwitchAction::PublishFailure && (switch_step(
            second,
            SwitchReply::Done,
        ) matches SwitchProgress::End(Err(error)) && error.code == code && error.operation
            == operation && !error.fatal && error.projection == RuntimeErrorCode::InvalidRequest)),
{
}

/// A fatal error stops the host before it is answered, and any other error is
/// answered at once.
pub proof fn law_fatal_error_stops_the_host_first(
    switch: ReleaseSwitch,
    stage: ReleaseStage,
    error: RuntimeHostError,
)
    requires
        switch.action == SwitchAction::ReadFatal || switch.action == SwitchAction::VerifyReady
            || switch.action == SwitchAction::AppendIntent || switch.action
            == SwitchAction::PrepareSuccess,
        stage.action != StageAction::MarkFatal,
    ensures
        error.fatal ==> switch_step(switch, SwitchReply::Failed(error)) == SwitchProgress::Next(
            ReleaseSwitch { action: SwitchAction::MarkFatal, failure: Some(error) },
        ) && stage_step(stage, StageReply::Failed(error)) == StageProgress::Next(
            ReleaseStage { action: StageAction::MarkFatal, failure: Some(error) },
        ),
        !error.fatal ==> switch_step(switch, SwitchReply::Failed(error)) == SwitchProgress::End(
            Err(error),
        ) && stage_step(stage, StageReply::Failed(error)) == StageProgress::End(Err(error)),
        switch_step(
            ReleaseSwitch { action: SwitchAction::MarkFatal, failure: Some(error) },
            SwitchReply::Done,
        ) == SwitchProgress::End(Err(error)),
        stage_step(
            ReleaseStage { action: StageAction::MarkFatal, failure: Some(error) },
            StageReply::Done,
        ) == StageProgress::End(Err(error)),
{
}

/// A host that has stopped neither switches nor stages anything, and a switch
/// that could not be published stops the host.
pub proof fn law_stopped_host_changes_nothing(
    switch: ReleaseSwitch,
    stage: ReleaseStage,
    error: RuntimeHostError,
)
    ensures
        switch.action == SwitchAction::ReadFatal && !error.fatal ==> switch_step(
            switch,
            SwitchReply::Stopped(Some(error)),
        ) == SwitchProgress::End(Err(error)),
        stage.action == StageAction::ReadFatal && !error.fatal ==> stage_step(
            stage,
            StageReply::Stopped(Some(error)),
        ) == StageProgress::End(Err(error)),
        switch.action == SwitchAction::PublishSuccess ==> (switch_step(
            switch,
            SwitchReply::Failed(error),
        ) matches SwitchProgress::Next(next) && next.action == SwitchAction::MarkFatal && (
        next.failure matches Some(told) && told.fatal && told.code == error.code)),
{
}

/// A release is staged in order: its turn, whether the host has stopped,
/// whether there is anything to write, its event, its turn at the facts, the
/// append, and the three that observe it.
pub proof fn law_stage_is_made_in_order(stage: ReleaseStage)
    ensures
        stage.action == StageAction::TakeGate ==> stage_step(stage, StageReply::Done)
            == StageProgress::Next(ReleaseStage { action: StageAction::ReadFatal, ..stage }),
        stage.action == StageAction::ReadFatal ==> stage_step(stage, StageReply::Stopped(None))
            == StageProgress::Next(ReleaseStage { action: StageAction::PrepareStage, ..stage }),
        stage.action == StageAction::PrepareStage ==> stage_step(stage, StageReply::Needed(true))
            == StageProgress::Next(ReleaseStage { action: StageAction::PrepareEvent, ..stage })
            && stage_step(stage, StageReply::Needed(false)) == StageProgress::End(Ok(())),
        stage.action == StageAction::PrepareEvent ==> stage_step(stage, StageReply::Done)
            == StageProgress::Next(ReleaseStage { action: StageAction::TakeFactGate, ..stage }),
        stage.action == StageAction::TakeFactGate ==> stage_step(stage, StageReply::Done)
            == StageProgress::Next(ReleaseStage { action: StageAction::AppendStaged, ..stage }),
        stage.action == StageAction::AppendStaged ==> stage_step(
            stage,
            StageReply::Appended(TransitionAppend::Appended),
        ) == StageProgress::Next(ReleaseStage { action: StageAction::ObserveDiagnostics, ..stage }),
        stage.action == StageAction::ObserveDiagnostics ==> stage_step(stage, StageReply::Done)
            == StageProgress::Next(ReleaseStage { action: StageAction::SynchronizeFacts, ..stage }),
        stage.action == StageAction::SynchronizeFacts ==> stage_step(stage, StageReply::Done)
            == StageProgress::Next(ReleaseStage { action: StageAction::ObservePipeline, ..stage }),
        stage.action == StageAction::ObservePipeline ==> stage_step(stage, StageReply::Done)
            == StageProgress::End(Ok(())),
{
}

/// A recovery that finds its boundary already written goes on to the members,
/// one that needs it writes it first, and one that needs a migration that is
/// missing fails.
pub proof fn law_boundary_is_written_before_the_members(
    recovery: ReleaseRecoveryView,
    baseline_key: Seq<char>,
    migration: bool,
)
    requires
        recovery.action == RecoveryAction::PrepareBoundary,
    ensures
        recovery_step(
            recovery,
            baseline_key,
            RecoveryReply::Boundary { needed: false, migration },
        ) == RecoveryProgressView::Next(
            ReleaseRecoveryView { action: RecoveryAction::ReadMembers, ..recovery },
        ),
        recovery_step(
            recovery,
            baseline_key,
            RecoveryReply::Boundary { needed: true, migration: false },
        ) matches RecoveryProgressView::End(Err(error)) && error.fatal,
        recovery_step(
            recovery,
            baseline_key,
            RecoveryReply::Boundary { needed: true, migration: true },
        ) matches RecoveryProgressView::Next(write) && write.action
            == RecoveryAction::AppendBoundary && recovery_step(
            write,
            baseline_key,
            RecoveryReply::Appended(TransitionAppend::Appended),
        ) == RecoveryProgressView::Next(
            ReleaseRecoveryView { action: RecoveryAction::ReadMembers, ..recovery },
        ),
{
}

/// Each member is looked up and, where it is missing, written, before the next
/// one is; a generation's manifest is read before it is written.
pub proof fn law_missing_members_are_written(
    recovery: ReleaseRecoveryView,
    baseline_key: Seq<char>,
)
    requires
        recovery.action == RecoveryAction::PrepareMember,
    ensures
        recovery_step(recovery, baseline_key, RecoveryReply::Needed(true)) matches RecoveryProgressView::Next(
            next,
        ) && next.member == recovery.member && (recovery.members[recovery.member] is Generation
            ==> next.action == RecoveryAction::ReadManifest && (recovery_step(
            next,
            baseline_key,
            RecoveryReply::Done,
        ) matches RecoveryProgressView::Next(write) && write.action == RecoveryAction::AppendMember
            && write.member == recovery.member)) && (!(
        recovery.members[recovery.member] is Generation) ==> next.action
            == RecoveryAction::AppendMember),
        recovery_step(recovery, baseline_key, RecoveryReply::Needed(false)) matches RecoveryProgressView::Next(
            next,
        ) ==> next.member == recovery.member + 1 && (next.member >= recovery.members.len() <==> next.action
            == RecoveryAction::VerifyReady),
{
}

/// A recovery ends well only after the last page of intents turned out empty,
/// and a failed step ends it with its error.
pub proof fn law_recovery_ends_after_the_last_intent(
    recovery: ReleaseRecoveryView,
    baseline_key: Seq<char>,
    reply: RecoveryReply,
)
    ensures
        recovery_step(recovery, baseline_key, reply) == RecoveryProgressView::End(Ok(())) ==> (
        recovery.action matches RecoveryAction::ReadPage(_, ReadPurpose::Intents)) && (
        reply matches RecoveryReply::Page(page) && page@.len() == 0),
        reply matches RecoveryReply::Failed(error) ==> recovery_step(recovery, baseline_key, reply)
            == RecoveryProgressView::End(Err(error)),
{
}

/// The facts are visited kind by kind, staged releases first, then activations,
/// then rollbacks, and the intents come last.
pub proof fn law_facts_are_visited_kind_by_kind(
    recovery: ReleaseRecoveryView,
    baseline_key: Seq<char>,
    kind: FactKind,
    page: Vec<ReleaseEvent>,
)
    requires
        page@.len() == 0,
    ensures
        recovery.action == RecoveryAction::VerifyReady ==> (recovery_step(
            recovery,
            baseline_key,
            RecoveryReply::Done,
        ) matches RecoveryProgressView::Next(next) && next.action == RecoveryAction::ReadCut(
            FactKind::Release(ReleaseEventType::Staged),
            ReadPurpose::Facts(ReleaseEventType::Staged),
        )),
        recovery.action == RecoveryAction::ReadPage(
            kind,
            ReadPurpose::Facts(ReleaseEventType::Staged),
        ) ==> (recovery_step(
            recovery,
            baseline_key,
            RecoveryReply::Page(page),
        ) matches RecoveryProgressView::Next(next) && next.action == RecoveryAction::ReadCut(
            FactKind::Release(ReleaseEventType::Activated),
            ReadPurpose::Facts(ReleaseEventType::Activated),
        )),
        recovery.action == RecoveryAction::ReadPage(
            kind,
            ReadPurpose::Facts(ReleaseEventType::Activated),
        ) ==> (recovery_step(
            recovery,
            baseline_key,
            RecoveryReply::Page(page),
        ) matches RecoveryProgressView::Next(next) && next.action == RecoveryAction::ReadCut(
            FactKind::Release(ReleaseEventType::RolledBack),
            ReadPurpose::Facts(ReleaseEventType::RolledBack),
        )),
        recovery.action == RecoveryAction::ReadPage(
            kind,
            ReadPurpose::Facts(ReleaseEventType::RolledBack),
        ) ==> (recovery_step(
            recovery,
            baseline_key,
            RecoveryReply::Page(page),
        ) matches RecoveryProgressView::Next(next) && next.action == RecoveryAction::ReadCut(
            FactKind::TransitionIntent,
            ReadPurpose::Intents,
        )),
{
}

/// Every event of a page of facts is verified: after one comes the next one in
/// the page, and after the last one the page that follows it in the ledger.
pub proof fn law_every_fact_is_verified(
    recovery: ReleaseRecoveryView,
    baseline_key: Seq<char>,
    event_type: ReleaseEventType,
)
    requires
        recovery.action == RecoveryAction::VerifyFact(event_type),
        0 <= recovery.position < recovery.page.len(),
    ensures
        recovery_step(recovery, baseline_key, RecoveryReply::Done) matches RecoveryProgressView::Next(
            next,
        ) ==> if recovery.position + 1 < recovery.page.len() {
            next.action == RecoveryAction::VerifyFact(event_type) && next.position
                == recovery.position + 1 && recovery.page[recovery.position].sequence
                < recovery.page[recovery.position + 1].sequence <= recovery.through
        } else {
            next.action is ReadPage && next.after
                == recovery.page[recovery.page.len() - 1].sequence
        },
{
    if recovery.position + 1 < recovery.page.len() {
        assert(recovery.page.take(recovery.position + 1).last()
            == recovery.page[recovery.position]);
    }
}

/// A completed intent is verified only when its completion is valid, and a
/// failed one is passed only when its failure is.
pub proof fn law_invalid_outcome_ends_the_recovery(
    recovery: ReleaseRecoveryView,
    baseline_key: Seq<char>,
    check: IntentCheck,
)
    requires
        recovery.action == RecoveryAction::CheckOutcome(check),
    ensures
        recovery_step(recovery, baseline_key, RecoveryReply::Valid(false)) matches RecoveryProgressView::End(
            Err(error),
        ) && error.fatal,
        check == IntentCheck::Completed ==> (recovery_step(
            recovery,
            baseline_key,
            RecoveryReply::Valid(true),
        ) matches RecoveryProgressView::Next(next) && next.action == RecoveryAction::VerifyOutcome),
{
}

/// An intent is looked up for its completion first and for its failure next,
/// each from the start of the ledger, and what was found decides.
pub proof fn law_intent_is_looked_up_both_ways(
    recovery: ReleaseRecoveryView,
    baseline_key: Seq<char>,
    kind: FactKind,
    page: Vec<ReleaseEvent>,
    through: u64,
)
    requires
        page@.len() == 0,
    ensures
        recovery.action == RecoveryAction::ReadPage(kind, ReadPurpose::Completion) ==> (
        recovery_step(recovery, baseline_key, RecoveryReply::Page(page)) matches RecoveryProgressView::Next(
            next,
        ) && next.action == RecoveryAction::ReadCut(FactKind::TransitionFailed, ReadPurpose::Failure)
            && next.completion == recovery.search.found && next.position == recovery.position
            && next.page == recovery.page),
        recovery.action == RecoveryAction::ReadCut(kind, ReadPurpose::Failure) || recovery.action
            == RecoveryAction::ReadCut(kind, ReadPurpose::Completion) ==> (recovery_step(
            recovery,
            baseline_key,
            RecoveryReply::Cut(through),
        ) matches RecoveryProgressView::Next(next) && next.action is ReadPage && next.search == (
        FactSearch { through, after: 0, found: None }) && next.completion == recovery.completion),
        recovery.action == RecoveryAction::ReadPage(kind, ReadPurpose::Failure) ==> match intent_resolution(
            recovery.page[recovery.position],
            recovery.completion,
            recovery.search.found,
        ) {
            Err(error) => recovery_step(recovery, baseline_key, RecoveryReply::Page(page))
                == RecoveryProgressView::End(Err(error)),
            Ok(check) => recovery_step(
                recovery,
                baseline_key,
                RecoveryReply::Page(page),
            ) matches RecoveryProgressView::Next(next) && (check == IntentCheck::Recovered
                ==> next.action == RecoveryAction::VerifyOutcome) && (check
                != IntentCheck::Recovered ==> next.action == RecoveryAction::CheckOutcome(check)),
        },
{
}

/// Facts and intents are read from the start of the ledger up to its end.
pub proof fn law_visits_begin_at_the_start(
    recovery: ReleaseRecoveryView,
    baseline_key: Seq<char>,
    kind: FactKind,
    event_type: ReleaseEventType,
    through: u64,
)
    requires
        recovery.action == RecoveryAction::ReadCut(kind, ReadPurpose::Facts(event_type))
            || recovery.action == RecoveryAction::ReadCut(kind, ReadPurpose::Intents),
    ensures
        recovery_step(recovery, baseline_key, RecoveryReply::Cut(through)) matches RecoveryProgressView::Next(
            next,
        ) && next.action is ReadPage && next.after == 0 && next.through == through,
{
}

/// The members of a baseline are looked up one by one from the first: a
/// generation as a staged release, a transition as the kind that it was; a
/// pointer among them is an error, and without members the state is verified.
pub proof fn law_members_are_looked_up_in_order(
    recovery: ReleaseRecoveryView,
    baseline_key: Seq<char>,
    members: Vec<ReleaseBaselineMember>,
)
    requires
        recovery.action == RecoveryAction::ReadMembers,
    ensures
        members@.len() == 0 ==> (recovery_step(
            recovery,
            baseline_key,
            RecoveryReply::Members(members),
        ) matches RecoveryProgressView::Next(next) && next.action == RecoveryAction::VerifyReady),
        members@.len() > 0 && members@[0] is Generation ==> (recovery_step(
            recovery,
            baseline_key,
            RecoveryReply::Members(members),
        ) matches RecoveryProgressView::Next(next) && next.member == 0 && next.members == members@
            && next.action == RecoveryAction::ReadCut(
            FactKind::Release(ReleaseEventType::Staged),
            ReadPurpose::Member,
        )),
        members@.len() > 0 && members@[0] is Pointer ==> (recovery_step(
            recovery,
            baseline_key,
            RecoveryReply::Members(members),
        ) matches RecoveryProgressView::End(Err(error)) && error.fatal),
        members@.len() > 0 ==> (members@[0] matches ReleaseBaselineMember::Transition { transition }
            ==> (recovery_step(
            recovery,
            baseline_key,
            RecoveryReply::Members(members),
        ) matches RecoveryProgressView::Next(next) && (next.action == RecoveryAction::ReadCut(
            FactKind::Release(ReleaseEventType::Activated),
            ReadPurpose::Member,
        ) <==> transition.kind == ReleaseTransitionKind::Activate))),
{
}

} // verus!
