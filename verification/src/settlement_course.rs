//! The course by which the facts of policy settlements are recorded: after a
//! run, and once more for all of them when the runtime starts.

use vstd::prelude::*;

use crate::error::{plain_error, DetailedError, DetailedErrorView, RuntimeHostError};
use crate::fact_producers::{
    require_settlement_instance, settlement_fact_records, settlement_facts, settlement_fits,
    settlement_overflow, unknown_settlement_instance, PolicySettlement,
};
use crate::ids::InstanceId;
use crate::runtime_facts::{record_views, RuntimeFactRecord, RuntimeFactRecordView};

verus! {

/// The next thing to do.
#[derive(Debug, Clone, Copy, PartialEq, Eq, Structural)]
pub enum SettlementAction {
    /// Ask whether the settlement's instance is registered at all.
    AskInstance,
    /// Find the settlement's instance, which has to be registered.
    FindInstance,
    /// Record the fact at the course's position.
    Record,
    /// Stop the host.
    MarkFatal,
}

/// What an action gave.
#[derive(Debug)]
pub enum SettlementReply {
    Done,
    Failed(DetailedError),
    Instance(Option<InstanceId>),
}

/// A course in progress.
#[derive(Debug)]
pub struct SettlementCourse {
    pub action: SettlementAction,
    pub settlements: Vec<PolicySettlement>,
    /// The settlement whose facts are being recorded.
    pub at: usize,
    pub records: Vec<RuntimeFactRecord>,
    pub position: usize,
    pub failure: Option<DetailedError>,
}

/// The value of a course.
#[verifier::ext_equal]
pub struct SettlementCourseView {
    pub action: SettlementAction,
    pub settlements: Seq<PolicySettlement>,
    pub at: int,
    pub records: Seq<RuntimeFactRecordView>,
    pub position: int,
    pub failure: Option<DetailedErrorView>,
}

impl View for SettlementCourse {
    type V = SettlementCourseView;

    open spec fn view(&self) -> SettlementCourseView {
        SettlementCourseView {
            action: self.action,
            settlements: self.settlements@,
            at: self.at as int,
            records: record_views(self.records@),
            position: self.position as int,
            failure: match self.failure {
                Some(error) => Some(error@),
                None => None,
            },
        }
    }
}

/// A course that goes on, or its result.
#[derive(Debug)]
pub enum SettlementProgress {
    Next(SettlementCourse),
    End(Result<(), DetailedError>),
}

pub enum SettlementProgressView {
    Next(SettlementCourseView),
    End(Result<(), DetailedErrorView>),
}

impl View for SettlementProgress {
    type V = SettlementProgressView;

    open spec fn view(&self) -> SettlementProgressView {
        match *self {
            SettlementProgress::Next(course) => SettlementProgressView::Next(course@),
            SettlementProgress::End(Ok(_)) => SettlementProgressView::End(Ok(())),
            SettlementProgress::End(Err(error)) => SettlementProgressView::End(Err(error@)),
        }
    }
}

pub open spec fn settlement_wf(course: SettlementCourseView) -> bool {
    &&& 0 <= course.at < course.settlements.len()
    &&& course.action == SettlementAction::Record ==> 0 <= course.position < course.records.len()
    &&& course.action == SettlementAction::MarkFatal ==> (course.failure matches Some(failure)
        && failure.error.fatal)
}

/// The reply answers the action.
pub open spec fn settlement_reply_fits(action: SettlementAction, reply: SettlementReply) -> bool {
    reply is Failed || match action {
        SettlementAction::AskInstance | SettlementAction::FindInstance => reply is Instance,
        _ => reply is Done,
    }
}

/// The error as one that stops the host.
pub open spec fn made_fatal(error: DetailedErrorView) -> DetailedErrorView {
    DetailedErrorView { error: RuntimeHostError { fatal: true, ..error.error }, ..error }
}

/// A settlement's fact was refused: the settlement itself is durable already,
/// so the host stops.
pub open spec fn settlement_refused(course: SettlementCourseView, error: DetailedErrorView) ->
    SettlementProgressView {
    SettlementProgressView::Next(
        SettlementCourseView {
            action: SettlementAction::MarkFatal,
            failure: Some(made_fatal(error)),
            ..course
        },
    )
}

/// A settlement is behind.
pub open spec fn settlement_over(course: SettlementCourseView) -> SettlementProgressView {
    if course.at + 1 >= course.settlements.len() {
        SettlementProgressView::End(Ok(()))
    } else {
        SettlementProgressView::Next(
            SettlementCourseView {
                action: SettlementAction::AskInstance,
                at: course.at + 1,
                ..course
            },
        )
    }
}

/// The step after a reply.
pub open spec fn settlement_step(course: SettlementCourseView, reply: SettlementReply) ->
    SettlementProgressView {
    let settlement = course.settlements[course.at];
    match (course.action, reply) {
        (SettlementAction::AskInstance, SettlementReply::Failed(error)) => SettlementProgressView::End(
            Err(error@),
        ),
        (SettlementAction::AskInstance, SettlementReply::Instance(found)) => if found is None {
            settlement_over(course)
        } else {
            SettlementProgressView::Next(
                SettlementCourseView { action: SettlementAction::FindInstance, ..course },
            )
        },
        (SettlementAction::MarkFatal, SettlementReply::Failed(error)) => SettlementProgressView::End(
            Err(error@),
        ),
        (SettlementAction::MarkFatal, _) => SettlementProgressView::End(Err(course.failure->0)),
        (_, SettlementReply::Failed(error)) => settlement_refused(course, error@),
        (SettlementAction::FindInstance, SettlementReply::Instance(found)) => match found {
            None => settlement_refused(course, plain_error(unknown_settlement_instance())),
            Some(instance_id) => if !settlement_fits(settlement) {
                settlement_refused(course, plain_error(settlement_overflow()))
            } else {
                SettlementProgressView::Next(
                    SettlementCourseView {
                        action: SettlementAction::Record,
                        records: settlement_facts(settlement, instance_id),
                        position: 0,
                        ..course
                    },
                )
            },
        },
        _ => if course.position + 1 < course.records.len() {
            SettlementProgressView::Next(
                SettlementCourseView { position: course.position + 1, ..course },
            )
        } else {
            settlement_over(course)
        },
    }
}

impl SettlementCourse {
    fn over(settlements: Vec<PolicySettlement>, action: SettlementAction) -> (course: Self)
        ensures
            course@ == (SettlementCourseView {
                action,
                settlements: settlements@,
                at: 0,
                records: Seq::empty(),
                position: 0,
                failure: None,
            }),
    {
        let course = SettlementCourse {
            action,
            settlements,
            at: 0,
            records: Vec::new(),
            position: 0,
            failure: None,
        };
        assert(course@.records =~= Seq::empty());
        course
    }

    /// Begins with the settlement of a run.
    pub fn after_run(settlement: PolicySettlement) -> (course: Self)
        ensures
            settlement_wf(course@),
            course@ == (SettlementCourseView {
                action: SettlementAction::FindInstance,
                settlements: seq![settlement],
                at: 0,
                records: Seq::empty(),
                position: 0,
                failure: None,
            }),
    {
        let mut settlements: Vec<PolicySettlement> = Vec::new();
        settlements.push(settlement);
        assert(settlements@ =~= seq![settlement]);
        SettlementCourse::over(settlements, SettlementAction::FindInstance)
    }

    /// Begins with the latest settlements when the runtime starts; nothing
    /// where there are none.
    pub fn on_start(settlements: Vec<PolicySettlement>) -> (course: Option<Self>)
        ensures
            match course {
                None => settlements@.len() == 0,
                Some(course) => settlement_wf(course@) && course@ == (SettlementCourseView {
                    action: SettlementAction::AskInstance,
                    settlements: settlements@,
                    at: 0,
                    records: Seq::empty(),
                    position: 0,
                    failure: None,
                }),
            },
    {
        if settlements.len() == 0 {
            return None;
        }
        Some(SettlementCourse::over(settlements, SettlementAction::AskInstance))
    }

    fn refused(self, error: DetailedError) -> (progress: SettlementProgress)
        requires
            settlement_wf(self@),
        ensures
            progress@ == settlement_refused(self@, error@),
            progress matches SettlementProgress::Next(next) ==> settlement_wf(next@),
    {
        let mut course = self;
        course.action = SettlementAction::MarkFatal;
        course.failure = Some(
            DetailedError {
                error: error.error.into_fatal(),
                native_detail: error.native_detail,
                related: error.related,
            },
        );
        SettlementProgress::Next(course)
    }

    fn settled(self) -> (progress: SettlementProgress)
        requires
            settlement_wf(self@),
        ensures
            progress@ == settlement_over(self@),
            progress matches SettlementProgress::Next(next) ==> settlement_wf(next@),
    {
        let mut course = self;
        assert(course.at < course.settlements.len());
        if course.at + 1 >= course.settlements.len() {
            return SettlementProgress::End(Ok(()));
        }
        course.at = course.at + 1;
        course.action = SettlementAction::AskInstance;
        SettlementProgress::Next(course)
    }

    fn instance_found(self, found: Option<InstanceId>) -> (progress: SettlementProgress)
        requires
            settlement_wf(self@),
            self.action == SettlementAction::FindInstance,
        ensures
            progress@ == settlement_step(self@, SettlementReply::Instance(found)),
            progress matches SettlementProgress::Next(next) ==> settlement_wf(next@),
    {
        let mut course = self;
        let instance_id = match require_settlement_instance(found) {
            Ok(instance_id) => instance_id,
            Err(error) => {
                return course.refused(DetailedError::plain(error));
            },
        };
        match settlement_fact_records(&course.settlements[course.at], instance_id) {
            Err(error) => course.refused(DetailedError::plain(error)),
            Ok(records) => {
                assert(records@.len() == record_views(records@).len());
                course.records = records;
                course.position = 0;
                course.action = SettlementAction::Record;
                SettlementProgress::Next(course)
            },
        }
    }

    /// Takes the reply to the current action.
    pub fn advance(self, reply: SettlementReply) -> (progress: SettlementProgress)
        requires
            settlement_wf(self@),
            settlement_reply_fits(self.action, reply),
        ensures
            progress@ == settlement_step(self@, reply),
            progress matches SettlementProgress::Next(next) ==> settlement_wf(next@),
    {
        let mut course = self;
        match reply {
            SettlementReply::Failed(error) => match course.action {
                SettlementAction::AskInstance
                | SettlementAction::MarkFatal => SettlementProgress::End(Err(error)),
                _ => course.refused(error),
            },
            SettlementReply::Instance(found) => {
                if course.action == SettlementAction::FindInstance {
                    return course.instance_found(found);
                }
                match found {
                    None => course.settled(),
                    Some(_) => {
                        course.action = SettlementAction::FindInstance;
                        SettlementProgress::Next(course)
                    },
                }
            },
            SettlementReply::Done => {
                if course.action == SettlementAction::MarkFatal {
                    return match course.failure {
                        Some(failure) => SettlementProgress::End(Err(failure)),
                        None => SettlementProgress::End(Ok(())),
                    };
                }
                assert(course.position < course.records.len());
                if course.position + 1 < course.records.len() {
                    course.position = course.position + 1;
                    SettlementProgress::Next(course)
                } else {
                    course.settled()
                }
            },
        }
    }
}

/// Any refusal of a settlement's fact, and a settlement whose instance is not
/// registered after a run, stops the host.
pub proof fn law_refused_settlement_is_fatal(course: SettlementCourseView, reply: SettlementReply)
    requires
        settlement_wf(course),
        settlement_reply_fits(course.action, reply),
        course.action == SettlementAction::FindInstance || course.action
            == SettlementAction::Record,
        reply is Failed || reply == SettlementReply::Instance(None),
    ensures
        settlement_step(course, reply) matches SettlementProgressView::Next(next) && next.action
            == SettlementAction::MarkFatal && (next.failure matches Some(failure)
            && failure.error.fatal),
        settlement_step(course, reply) matches SettlementProgressView::Next(next) ==> settlement_step(
            next,
            SettlementReply::Done,
        ) == SettlementProgressView::End(Err(next.failure->0)),
{
}

/// On a start a settlement of an instance that is not registered any more is
/// left as it is: nothing of it is recorded.
pub proof fn law_unregistered_settlement_is_left(course: SettlementCourseView)
    requires
        settlement_wf(course),
        course.action == SettlementAction::AskInstance,
    ensures
        settlement_step(course, SettlementReply::Instance(None)) == settlement_over(course),
        settlement_over(course) matches SettlementProgressView::Next(next) ==> next.action
            == SettlementAction::AskInstance && next.at == course.at + 1,
{
}

/// Every fact of a settlement is recorded, one after the other, before the next
/// settlement is looked at, and the course ends well after the last one.
pub proof fn law_settlements_are_recorded_in_order(course: SettlementCourseView)
    requires
        course.action == SettlementAction::Record,
        0 <= course.position < course.records.len(),
        0 <= course.at < course.settlements.len(),
    ensures
        course.position < course.records.len() - 1 ==> settlement_step(course, SettlementReply::Done)
            == SettlementProgressView::Next(
            SettlementCourseView { position: course.position + 1, ..course },
        ),
        course.position == course.records.len() - 1 && course.at < course.settlements.len() - 1 ==> (
        settlement_step(course, SettlementReply::Done) matches SettlementProgressView::Next(next)
            && next.action == SettlementAction::AskInstance && next.at == course.at + 1
            && next.settlements == course.settlements),
        course.position == course.records.len() - 1 && course.at == course.settlements.len() - 1
            ==> settlement_step(course, SettlementReply::Done) == SettlementProgressView::End(
            Ok(()),
        ),
{
}

/// A settlement of a registered instance has its own facts recorded, from the
/// first one on.
pub proof fn law_settlement_of_a_known_instance_is_recorded(
    course: SettlementCourseView,
    instance_id: InstanceId,
)
    requires
        settlement_fits(course.settlements[course.at]),
    ensures
        course.action == SettlementAction::AskInstance ==> (settlement_step(
            course,
            SettlementReply::Instance(Some(instance_id)),
        ) matches SettlementProgressView::Next(next) && next.action
            == SettlementAction::FindInstance && next.at == course.at),
        course.action == SettlementAction::FindInstance ==> (settlement_step(
            course,
            SettlementReply::Instance(Some(instance_id)),
        ) matches SettlementProgressView::Next(next) && next.action == SettlementAction::Record
            && next.at == course.at && next.position == 0 && next.records == settlement_facts(
            course.settlements[course.at],
            instance_id,
        )),
{
}

} // verus!
