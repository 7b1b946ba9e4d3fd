//! Runtime-owned domain state as the read-only project transport contract shows it.

use vstd::prelude::*;

use crate::error::{
    fatal_error, request_error, RuntimeErrorCode, RuntimeHostError, RuntimeHostResult,
};
use crate::ids::{InstanceId, OwnerEpoch};
use crate::planning::FactScope;
use crate::policy::catalog::{CatalogCounts, ScopeSelector};
use crate::policy::dispatch::{reason_texts, PolicyDispatchProjectionState};
use crate::policy::evaluation::PolicyReasonRecord;
use crate::policy::generation::CatalogGeneration;
use crate::policy::tracking::{
    PolicyDispatchPage, PolicyDispatchProjection, ProjectDecisionPageCursor, ProjectionView,
};
use crate::text::{copy_texts, lemma_text_order, same_text, sorts_before, text_less, texts};

verus! {

/// How many diagnostics a snapshot shows.
pub const MAX_PROJECT_DIAGNOSTICS: usize = 256;

/// Which contract a client and the host agreed on. The first one knows no
/// pages.
#[derive(Debug, Clone, Copy, PartialEq, Eq, Structural)]
pub enum ContractVersion {
    V1,
    V2,
}

pub open spec fn interface_refusal(code: &'static str) -> RuntimeHostError {
    request_error(code, "project_runtime_interface", RuntimeErrorCode::ProtocolInvalid)
}

pub open spec fn interface_fatal(code: &'static str) -> RuntimeHostError {
    fatal_error(code, "project_runtime_interface", RuntimeErrorCode::RuntimeFatal)
}

fn refusal(code: &'static str) -> (error: RuntimeHostError)
    ensures
        error == interface_refusal(code),
{
    RuntimeHostError::request(code, "project_runtime_interface", RuntimeErrorCode::ProtocolInvalid)
}

/// The error of a client with which no contract could be agreed on.
pub open spec fn negotiation_error(code: &'static str) -> RuntimeHostError {
    request_error(code, "negotiate_project_interface", RuntimeErrorCode::ProtocolInvalid)
}

/// The contract that was agreed on, given what the client's request gave.
pub fn negotiated_version(negotiation: Result<ContractVersion, &'static str>) -> (result:
    RuntimeHostResult<ContractVersion>)
    ensures
        result == match negotiation {
            Ok(version) => Ok(version),
            Err(code) => Err(negotiation_error(code)),
        },
{
    match negotiation {
        Ok(version) => Ok(version),
        Err(code) => Err(
            RuntimeHostError::request(
                code,
                "negotiate_project_interface",
                RuntimeErrorCode::ProtocolInvalid,
            ),
        ),
    }
}

/// The error of a contract that was not met. One that is only too large is the
/// client's to solve.
pub open spec fn contract_error(code: &'static str) -> RuntimeHostError {
    if code@ == "project_interface_response_too_large"@ {
        interface_refusal(code)
    } else {
        interface_fatal(code)
    }
}

pub fn project_contract_error(code: &'static str) -> (error: RuntimeHostError)
    ensures
        error == contract_error(code),
{
    if same_text(code, "project_interface_response_too_large") {
        refusal(code)
    } else {
        RuntimeHostError::fatal(code, "project_runtime_interface", RuntimeErrorCode::RuntimeFatal)
    }
}

/// A decision as a client sees it.
#[derive(Debug, Clone, PartialEq, Eq)]
pub struct ProjectDecisionView {
    pub decision_id: String,
    pub task_id: String,
    pub instance_id: String,
    pub operation_id: String,
    pub state: PolicyDispatchProjectionState,
    pub catalog_hash: String,
    pub catalog_version: u64,
    pub input_ledger_position: u64,
    pub fact_snapshot_id: String,
    pub approval_fact_ids: Vec<String>,
    pub reason_codes: Vec<String>,
    pub urgency_milli: u16,
}

/// The decision shows everything of a dispatch but its digests and the details
/// of its reasons.
pub open spec fn shows(shown: ProjectDecisionView, dispatch: ProjectionView) -> bool {
    &&& shown.decision_id@ == dispatch.data.decision_id
    &&& shown.task_id@ == dispatch.data.task_id
    &&& shown.instance_id@ == dispatch.data.instance_id
    &&& shown.operation_id@ == dispatch.data.operation_id
    &&& shown.state == dispatch.state
    &&& shown.catalog_hash@ == dispatch.data.catalog_hash
    &&& shown.catalog_version == dispatch.data.catalog_version
    &&& shown.input_ledger_position == dispatch.data.input_ledger_position
    &&& shown.fact_snapshot_id@ == dispatch.data.fact_snapshot_id
    &&& texts(shown.approval_fact_ids@) == dispatch.data.approval_fact_ids
    &&& texts(shown.reason_codes@) == dispatch.data.reasons.map_values(
        |reason: (Seq<char>, Seq<char>)| reason.0,
    )
    &&& shown.urgency_milli == dispatch.data.urgency_milli
}

fn reason_codes(reasons: &Vec<PolicyReasonRecord>) -> (codes: Vec<String>)
    ensures
        texts(codes@) == reason_texts(reasons@).map_values(
            |reason: (Seq<char>, Seq<char>)| reason.0,
        ),
{
    let mut codes: Vec<String> = Vec::new();
    let mut index: usize = 0;
    while index < reasons.len()
        invariant
            index <= reasons.len(),
            codes@.len() == index,
            forall|i: int| 0 <= i < index ==> (#[trigger] codes@[i])@ == reasons@[i].code@,
        decreases reasons.len() - index,
    {
        codes.push(reasons[index].code.clone());
        index += 1;
    }
    assert(texts(codes@) =~= reason_texts(reasons@).map_values(
        |reason: (Seq<char>, Seq<char>)| reason.0,
    ));
    codes
}

pub fn project_decision(decision: &PolicyDispatchProjection) -> (shown: ProjectDecisionView)
    ensures
        shows(shown, decision@),
{
    ProjectDecisionView {
        decision_id: decision.data.decision_id.clone(),
        task_id: decision.data.task_id.clone(),
        instance_id: decision.data.instance_id.clone(),
        operation_id: decision.data.operation_id.clone(),
        state: decision.state,
        catalog_hash: decision.data.catalog_hash.clone(),
        catalog_version: decision.data.catalog_version,
        input_ledger_position: decision.data.input_ledger_position,
        fact_snapshot_id: decision.data.fact_snapshot_id.clone(),
        approval_fact_ids: copy_texts(&decision.data.approval_fact_ids),
        reason_codes: reason_codes(&decision.data.reasons),
        urgency_milli: decision.data.urgency_milli,
    }
}

/// What a snapshot says of its page of decisions.
#[derive(Debug, Clone)]
pub struct ProjectDecisionPage {
    pub snapshot_ledger_position: u64,
    pub requested_limit: u16,
    pub returned: u16,
    pub has_more: bool,
    pub next_cursor: Option<ProjectDecisionPageCursor>,
}

/// Whether a response can be sent, or is tried again with a decision less.
#[derive(Debug, Clone, Copy, PartialEq, Eq, Structural)]
pub enum FitStep {
    Send,
    TryAgain,
}

/// A response that is made to fit: as many decisions as it can hold, the
/// latest first.
#[derive(Debug, Clone)]
pub struct ResponseFit {
    pub version: ContractVersion,
    pub decisions: Vec<(u64, ProjectDecisionView)>,
    pub original_count: usize,
    pub snapshot_ledger_position: u64,
    pub requested_limit: u16,
    pub older_exist: bool,
}

/// A response that starts with all decisions of a page.
pub open spec fn fit_begins(
    fit: ResponseFit,
    version: ContractVersion,
    page: PolicyDispatchPage,
) -> bool {
    &&& fit.version == version
    &&& fit.decisions@.len() == page.dispatches@.len()
    &&& fit.original_count == page.dispatches@.len()
    &&& fit.snapshot_ledger_position == page.snapshot_ledger_position
    &&& fit.requested_limit == page.requested_limit
    &&& fit.older_exist == page.has_more
    &&& forall|i: int|
        0 <= i < page.dispatches@.len() ==> (#[trigger] fit.decisions@[i]).0
            == page.dispatches@[i].intent_sequence && shows(
            fit.decisions@[i].1,
            page.dispatches@[i]@,
        )
}

impl ResponseFit {
    /// Starts with all decisions of a page. A client without pages gets all of
    /// them or none.
    pub fn begin(version: ContractVersion, page: &PolicyDispatchPage) -> (result: RuntimeHostResult<
        Self,
    >)
        ensures
            if version == ContractVersion::V1 && page.has_more {
                result matches Err(error) && error == interface_refusal(
                    "project_interface_v1_requires_v2",
                )
            } else {
                result matches Ok(fit) && fit_begins(fit, version, *page)
            },
    {
        if version == ContractVersion::V1 && page.has_more {
            return Err(refusal("project_interface_v1_requires_v2"));
        }
        let mut decisions: Vec<(u64, ProjectDecisionView)> = Vec::new();
        let mut index: usize = 0;
        while index < page.dispatches.len()
            invariant
                index <= page.dispatches.len(),
                decisions@.len() == index,
                forall|i: int|
                    0 <= i < index ==> (#[trigger] decisions@[i]).0
                        == page.dispatches@[i].intent_sequence && shows(
                        decisions@[i].1,
                        page.dispatches@[i]@,
                    ),
            decreases page.dispatches.len() - index,
        {
            let dispatch = &page.dispatches[index];
            decisions.push((dispatch.intent_sequence, project_decision(dispatch)));
            index += 1;
        }
        Ok(
            ResponseFit {
                version,
                decisions,
                original_count: page.dispatches.len(),
                snapshot_ledger_position: page.snapshot_ledger_position,
                requested_limit: page.requested_limit,
                older_exist: page.has_more,
            },
        )
    }

    /// Decisions are left out.
    pub open spec fn leaves_out(&self) -> bool {
        self.older_exist || self.decisions@.len() < self.original_count
    }

    /// The page of the decisions that are left. Where some are left out, it
    /// goes on after the last of them.
    pub fn decision_page(&self) -> (result: RuntimeHostResult<Option<ProjectDecisionPage>>)
        ensures
            if self.version == ContractVersion::V1 {
                result matches Ok(page) && page is None
            } else if self.leaves_out() && self.decisions@.len() == 0 {
                result matches Err(error) && error == interface_refusal(
                    "project_interface_response_too_large",
                )
            } else if self.decisions@.len() > u16::MAX {
                result matches Err(error) && error == interface_fatal(
                    "project_decision_count_overflow",
                )
            } else {
                &&& result matches Ok(Some(page))
                &&& page.snapshot_ledger_position == self.snapshot_ledger_position
                &&& page.requested_limit == self.requested_limit
                &&& page.returned == self.decisions@.len()
                &&& page.has_more == self.leaves_out()
                &&& match page.next_cursor {
                    None => !self.leaves_out(),
                    Some(cursor) => self.leaves_out() && cursor.snapshot_ledger_position
                        == self.snapshot_ledger_position && cursor.before_intent_sequence
                        == self.decisions@.last().0 && cursor.before_decision_id@
                        == self.decisions@.last().1.decision_id@,
                }
            },
    {
        if self.version == ContractVersion::V1 {
            return Ok(None);
        }
        let has_more = self.older_exist || self.decisions.len() < self.original_count;
        let next_cursor: Option<ProjectDecisionPageCursor> = if has_more {
            if self.decisions.len() == 0 {
                return Err(refusal("project_interface_response_too_large"));
            }
            let last = &self.decisions[self.decisions.len() - 1];
            Some(
                ProjectDecisionPageCursor {
                    snapshot_ledger_position: self.snapshot_ledger_position,
                    before_intent_sequence: last.0,
                    before_decision_id: last.1.decision_id.clone(),
                },
            )
        } else {
            None
        };
        if self.decisions.len() > u16::MAX as usize {
            return Err(
                RuntimeHostError::fatal(
                    "project_decision_count_overflow",
                    "project_runtime_interface",
                    RuntimeErrorCode::RuntimeFatal,
                ),
            );
        }
        Ok(
            Some(
                ProjectDecisionPage {
                    snapshot_ledger_position: self.snapshot_ledger_position,
                    requested_limit: self.requested_limit,
                    returned: self.decisions.len() as u16,
                    has_more,
                    next_cursor,
                },
            ),
        )
    }

    /// What follows once a response was made or refused. A response that is
    /// too large loses its oldest decision, but never the last one.
    pub fn response_made(&mut self, refused: Option<&'static str>) -> (result: RuntimeHostResult<
        FitStep,
    >)
        ensures
            final(self).version == old(self).version,
            final(self).original_count == old(self).original_count,
            final(self).snapshot_ledger_position == old(self).snapshot_ledger_position,
            final(self).requested_limit == old(self).requested_limit,
            final(self).older_exist == old(self).older_exist,
            match refused {
                None => final(self).decisions == old(self).decisions && result == Ok::<
                    FitStep,
                    RuntimeHostError,
                >(FitStep::Send),
                Some(code) => {
                    let too_large = code@ == "project_interface_response_too_large"@;
                    if too_large && old(self).version == ContractVersion::V2 && old(
                        self,
                    ).decisions@.len() > 1 {
                        final(self).decisions@ == old(self).decisions@.drop_last() && result == Ok::<
                            FitStep,
                            RuntimeHostError,
                        >(FitStep::TryAgain)
                    } else if too_large && old(self).version == ContractVersion::V1 {
                        final(self).decisions == old(self).decisions && result == Err::<FitStep, _>(
                            interface_refusal("project_interface_v1_requires_v2"),
                        )
                    } else {
                        final(self).decisions == old(self).decisions && result == Err::<FitStep, _>(
                            contract_error(code),
                        )
                    }
                },
            },
    {
        let code = match refused {
            None => {
                return Ok(FitStep::Send);
            },
            Some(code) => code,
        };
        if same_text(code, "project_interface_response_too_large") {
            if self.version == ContractVersion::V1 {
                return Err(refusal("project_interface_v1_requires_v2"));
            }
            if self.decisions.len() > 1 {
                let _ = self.decisions.pop();
                return Ok(FitStep::TryAgain);
            }
        }
        Err(project_contract_error(code))
    }
}

/// Only the latest items are kept.
pub fn retain_recent_diagnostics<T>(diagnostics: Vec<T>) -> (recent: Vec<T>)
    ensures
        recent@ == if diagnostics@.len() > 256 {
            diagnostics@.skip(diagnostics@.len() - 256)
        } else {
            diagnostics@
        },
{
    let ghost all = diagnostics@;
    let mut diagnostics = diagnostics;
    let length: usize = diagnostics.len();
    if length > MAX_PROJECT_DIAGNOSTICS {
        let recent = diagnostics.split_off(length - MAX_PROJECT_DIAGNOSTICS);
        assert(recent@ =~= all.skip(length - 256));
        return recent;
    }
    diagnostics
}

/// A count that a snapshot can show.
pub fn bounded_count(value: usize) -> (result: RuntimeHostResult<u32>)
    ensures
        result == if value <= u32::MAX {
            Ok::<u32, RuntimeHostError>(value as u32)
        } else {
            Err(interface_fatal("project_interface_count_overflow"))
        },
{
    if value as u64 > u32::MAX as u64 {
        return Err(
            RuntimeHostError::fatal(
                "project_interface_count_overflow",
                "project_runtime_interface",
                RuntimeErrorCode::RuntimeFatal,
            ),
        );
    }
    Ok(value as u32)
}

/// What a snapshot says of the active catalog.
#[derive(Debug, Clone, PartialEq, Eq)]
pub struct ProjectCatalogView {
    pub catalog_id: String,
    pub catalog_version: u64,
    pub catalog_hash: String,
    pub task_count: u32,
    pub pool_count: u32,
    pub activity_profile_count: u32,
    pub goal_count: u32,
    pub timeline_event_count: u32,
}

/// The snapshot cannot show one of the catalog's counts.
pub open spec fn counts_overflow(counts: CatalogCounts, profiles: Seq<GoalProfile>) -> bool {
    counts.tasks > u32::MAX || counts.pools > u32::MAX || profiles.len() > u32::MAX
        || declared_goals(profiles).len() > u32::MAX || counts.timeline_events > u32::MAX
}

pub open spec fn shows_catalog(
    shown: ProjectCatalogView,
    generation: CatalogGeneration,
    counts: CatalogCounts,
    profiles: Seq<GoalProfile>,
) -> bool {
    &&& shown.catalog_id@ == generation.catalog_id@
    &&& shown.catalog_version == generation.catalog_version
    &&& shown.catalog_hash@ == generation.catalog_hash@
    &&& shown.task_count == counts.tasks
    &&& shown.pool_count == counts.pools
    &&& shown.activity_profile_count == profiles.len()
    &&& shown.goal_count == declared_goals(profiles).len()
    &&& shown.timeline_event_count == counts.timeline_events
}

proof fn lemma_fewer_goals_declared(profiles: Seq<GoalProfile>, count: int)
    requires
        0 <= count <= profiles.len(),
    ensures
        declared_goals(profiles.take(count)).len() <= declared_goals(profiles).len(),
    decreases profiles.len() - count,
{
    if count == profiles.len() {
        assert(profiles.take(count) =~= profiles);
    } else {
        assert(profiles.take(count + 1).drop_last() =~= profiles.take(count));
        lemma_fewer_goals_declared(profiles, count + 1);
    }
}

/// How many goals the profiles declare.
fn goal_count(profiles: &Vec<GoalProfile>) -> (result: RuntimeHostResult<u32>)
    ensures
        result == if declared_goals(profiles@).len() > u32::MAX {
            Err::<u32, _>(interface_fatal("project_interface_count_overflow"))
        } else {
            Ok(declared_goals(profiles@).len() as u32)
        },
{
    let mut total: u32 = 0;
    let mut index: usize = 0;
    assert(profiles@.take(0) =~= Seq::empty());
    while index < profiles.len()
        invariant
            index <= profiles.len(),
            total == declared_goals(profiles@.take(index as int)).len(),
        decreases profiles.len() - index,
    {
        proof {
            let taken = profiles@.take(index + 1);
            assert(taken.drop_last() =~= profiles@.take(index as int));
            assert(taken.last() == profiles@[index as int]);
            lemma_fewer_goals_declared(profiles@, index + 1);
        }
        let own = bounded_count(profiles[index].goals.len())?;
        total = match total.checked_add(own) {
            Some(total) => total,
            None => {
                return Err(
                    RuntimeHostError::fatal(
                        "project_interface_count_overflow",
                        "project_runtime_interface",
                        RuntimeErrorCode::RuntimeFatal,
                    ),
                );
            },
        };
        index += 1;
    }
    assert(profiles@.take(index as int) =~= profiles@);
    Ok(total)
}

/// The catalog as a snapshot shows it. Counts that it cannot show are refused.
pub fn project_catalog(
    generation: &CatalogGeneration,
    counts: &CatalogCounts,
    profiles: &Vec<GoalProfile>,
) -> (result: RuntimeHostResult<ProjectCatalogView>)
    ensures
        if counts_overflow(*counts, profiles@) {
            result matches Err(error) && error == interface_fatal(
                "project_interface_count_overflow",
            )
        } else {
            result matches Ok(shown) && shows_catalog(shown, *generation, *counts, profiles@)
        },
{
    let goal_count = goal_count(profiles)?;
    let task_count = bounded_count(counts.tasks)?;
    let pool_count = bounded_count(counts.pools)?;
    let activity_profile_count = bounded_count(profiles.len())?;
    let timeline_event_count = bounded_count(counts.timeline_events)?;
    Ok(
        ProjectCatalogView {
            catalog_id: generation.catalog_id.clone(),
            catalog_version: generation.catalog_version,
            catalog_hash: generation.catalog_hash.clone(),
            task_count,
            pool_count,
            activity_profile_count,
            goal_count,
            timeline_event_count,
        },
    )
}

/// What a fact or a goal is about, as a snapshot shows it.
#[derive(Debug, Clone, PartialEq, Eq)]
pub enum ProjectScopeView {
    Instance { instance_id: String },
    Server { server_id: String },
    Game { game_id: String },
}

pub open spec fn scope_shown(scope: ScopeSelector) -> ProjectScopeView {
    match scope {
        ScopeSelector::Instance { instance_id } => ProjectScopeView::Instance { instance_id },
        ScopeSelector::Server { server_id } => ProjectScopeView::Server { server_id },
        ScopeSelector::Game { game_id } => ProjectScopeView::Game { game_id },
    }
}

fn project_scope(scope: &ScopeSelector) -> (shown: ProjectScopeView)
    ensures
        shown == scope_shown(*scope),
{
    match scope {
        ScopeSelector::Instance { instance_id } => ProjectScopeView::Instance {
            instance_id: instance_id.clone(),
        },
        ScopeSelector::Server { server_id } => ProjectScopeView::Server {
            server_id: server_id.clone(),
        },
        ScopeSelector::Game { game_id } => ProjectScopeView::Game { game_id: game_id.clone() },
    }
}

pub open spec fn fact_scope_shown(scope: FactScope) -> ProjectScopeView {
    match scope {
        FactScope::Instance { instance_id } => ProjectScopeView::Instance { instance_id },
        FactScope::Server { server_id } => ProjectScopeView::Server { server_id },
        FactScope::Game { game_id } => ProjectScopeView::Game { game_id },
    }
}

fn project_fact_scope(scope: &FactScope) -> (shown: ProjectScopeView)
    ensures
        shown == fact_scope_shown(*scope),
{
    match scope {
        FactScope::Instance { instance_id } => ProjectScopeView::Instance {
            instance_id: instance_id.clone(),
        },
        FactScope::Server { server_id } => ProjectScopeView::Server {
            server_id: server_id.clone(),
        },
        FactScope::Game { game_id } => ProjectScopeView::Game { game_id: game_id.clone() },
    }
}

/// What a goal is measured by.
#[derive(Debug, Clone, PartialEq, Eq)]
pub enum MetricRef {
    Fact { fact_key: String },
    Pool { pool_id: String },
    Outcome { task_id: String, outcome_key: String },
}

/// What a goal is measured by, as a snapshot shows it.
#[derive(Debug, Clone, PartialEq, Eq)]
pub enum ProjectGoalMetricView {
    Fact { fact_key: String },
    Pool { pool_id: String },
    Outcome { task_id: String, outcome_key: String },
}

pub open spec fn metric_shown(metric: MetricRef) -> ProjectGoalMetricView {
    match metric {
        MetricRef::Fact { fact_key } => ProjectGoalMetricView::Fact { fact_key },
        MetricRef::Pool { pool_id } => ProjectGoalMetricView::Pool { pool_id },
        MetricRef::Outcome { task_id, outcome_key } => ProjectGoalMetricView::Outcome {
            task_id,
            outcome_key,
        },
    }
}

fn project_metric(metric: &MetricRef) -> (shown: ProjectGoalMetricView)
    ensures
        shown == metric_shown(*metric),
{
    match metric {
        MetricRef::Fact { fact_key } => ProjectGoalMetricView::Fact { fact_key: fact_key.clone() },
        MetricRef::Pool { pool_id } => ProjectGoalMetricView::Pool { pool_id: pool_id.clone() },
        MetricRef::Outcome { task_id, outcome_key } => ProjectGoalMetricView::Outcome {
            task_id: task_id.clone(),
            outcome_key: outcome_key.clone(),
        },
    }
}

/// A goal as a profile declares it.
#[derive(Debug, Clone)]
pub struct GoalDeclaration {
    pub id: String,
    pub metric: MetricRef,
    pub target: i64,
    pub deadline_unix_ms: u64,
    pub strategic_weight_milli: u16,
    pub best_effort: bool,
}

/// The goals of an activity profile.
#[derive(Debug, Clone)]
pub struct GoalProfile {
    pub id: String,
    pub scope: ScopeSelector,
    pub goals: Vec<GoalDeclaration>,
}

/// A goal as a snapshot shows it.
#[derive(Debug, Clone)]
pub struct ProjectGoalView {
    pub goal_id: String,
    pub activity_profile_id: String,
    pub scope: ProjectScopeView,
    pub metric: ProjectGoalMetricView,
    pub target: i64,
    pub deadline_unix_ms: u64,
    pub strategic_weight_milli: u16,
    pub best_effort: bool,
}

/// The value of a shown goal.
pub struct GoalView {
    pub goal_id: Seq<char>,
    pub activity_profile_id: Seq<char>,
    pub scope: ProjectScopeView,
    pub metric: ProjectGoalMetricView,
    pub target: i64,
    pub deadline_unix_ms: u64,
    pub strategic_weight_milli: u16,
    pub best_effort: bool,
}

impl View for ProjectGoalView {
    type V = GoalView;

    open spec fn view(&self) -> GoalView {
        GoalView {
            goal_id: self.goal_id@,
            activity_profile_id: self.activity_profile_id@,
            scope: self.scope,
            metric: self.metric,
            target: self.target,
            deadline_unix_ms: self.deadline_unix_ms,
            strategic_weight_milli: self.strategic_weight_milli,
            best_effort: self.best_effort,
        }
    }
}

pub open spec fn goal_views(goals: Seq<ProjectGoalView>) -> Seq<GoalView> {
    goals.map_values(|goal: ProjectGoalView| goal@)
}

/// The goals of a profile, as declared.
pub open spec fn profile_goals(profile: GoalProfile) -> Seq<GoalView> {
    profile.goals@.map_values(
        |goal: GoalDeclaration|
            GoalView {
                goal_id: goal.id@,
                activity_profile_id: profile.id@,
                scope: scope_shown(profile.scope),
                metric: metric_shown(goal.metric),
                target: goal.target,
                deadline_unix_ms: goal.deadline_unix_ms,
                strategic_weight_milli: goal.strategic_weight_milli,
                best_effort: goal.best_effort,
            },
    )
}

/// The goals of all profiles, as declared.
pub open spec fn declared_goals(profiles: Seq<GoalProfile>) -> Seq<GoalView>
    decreases profiles.len(),
{
    if profiles.len() == 0 {
        Seq::empty()
    } else {
        declared_goals(profiles.drop_last()) + profile_goals(profiles.last())
    }
}

/// A goal comes after another: by the id of its profile, then by its own.
pub open spec fn goal_after(later: GoalView, earlier: GoalView) -> bool {
    text_less(earlier.activity_profile_id, later.activity_profile_id) || (
    earlier.activity_profile_id == later.activity_profile_id && text_less(
        earlier.goal_id,
        later.goal_id,
    ))
}

/// A row of goals with one more put before the first of those at the end that
/// come after it.
pub open spec fn goal_placed(row: Seq<GoalView>, goal: GoalView) -> Seq<GoalView>
    decreases row.len(),
{
    if row.len() == 0 || !goal_after(row.last(), goal) {
        row.push(goal)
    } else {
        goal_placed(row.drop_last(), goal).push(row.last())
    }
}

/// Goals in order; equal ones stay as they came.
pub open spec fn goals_in_order(goals: Seq<GoalView>) -> Seq<GoalView>
    decreases goals.len(),
{
    if goals.len() == 0 {
        goals
    } else {
        goal_placed(goals_in_order(goals.drop_last()), goals.last())
    }
}

proof fn lemma_goal_placed_at(row: Seq<GoalView>, goal: GoalView, position: int)
    requires
        0 <= position <= row.len(),
        position > 0 ==> !goal_after(row[position - 1], goal),
        forall|i: int| position <= i < row.len() ==> goal_after(#[trigger] row[i], goal),
    ensures
        goal_placed(row, goal) == row.insert(position, goal),
    decreases row.len(),
{
    if position == row.len() {
        assert(row.insert(position, goal) =~= row.push(goal));
        if row.len() > 0 {
            assert(row.last() == row[position - 1]);
        }
    } else {
        assert(row.last() == row[row.len() - 1]);
        lemma_goal_placed_at(row.drop_last(), goal, position);
        assert(row.drop_last().insert(position, goal).push(row.last()) =~= row.insert(
            position,
            goal,
        ));
    }
}

fn comes_after(later: &ProjectGoalView, earlier: &ProjectGoalView) -> (after: bool)
    ensures
        after == goal_after(later@, earlier@),
{
    sorts_before(earlier.activity_profile_id.as_str(), later.activity_profile_id.as_str()) || (
    same_text(earlier.activity_profile_id.as_str(), later.activity_profile_id.as_str())
        && sorts_before(earlier.goal_id.as_str(), later.goal_id.as_str()))
}

fn place_goal(row: &mut Vec<ProjectGoalView>, goal: ProjectGoalView)
    ensures
        goal_views(final(row)@) == goal_placed(goal_views(old(row)@), goal@),
{
    let ghost before = goal_views(row@);
    let mut position: usize = row.len();
    while position > 0 && comes_after(&row[position - 1], &goal)
        invariant
            position <= row.len(),
            *row == *old(row),
            before == goal_views(row@),
            forall|i: int| position <= i < row@.len() ==> goal_after(#[trigger] before[i], goal@),
        decreases position,
    {
        assert(before[position - 1] == row@[position - 1]@);
        position -= 1;
    }
    proof {
        if position > 0 {
            assert(before[position - 1] == row@[position - 1]@);
        }
        lemma_goal_placed_at(before, goal@, position as int);
    }
    row.insert(position, goal);
    assert(goal_views(row@) =~= before.insert(position as int, goal@));
}

/// The goals of all profiles, by profile and by goal.
pub fn project_goals(profiles: &Vec<GoalProfile>) -> (goals: Vec<ProjectGoalView>)
    ensures
        goal_views(goals@) == goals_in_order(declared_goals(profiles@)),
{
    let mut row: Vec<ProjectGoalView> = Vec::new();
    let mut index: usize = 0;
    proof {
        assert(profiles@.take(0) =~= Seq::empty());
        assert(goal_views(row@) =~= Seq::empty());
    }
    while index < profiles.len()
        invariant
            index <= profiles.len(),
            goal_views(row@) == goals_in_order(declared_goals(profiles@.take(index as int))),
        decreases profiles.len() - index,
    {
        let profile = &profiles[index];
        let ghost done = declared_goals(profiles@.take(index as int));
        let ghost own = profile_goals(*profile);
        let mut at: usize = 0;
        assert(done + own.take(0) =~= done);
        while at < profile.goals.len()
            invariant
                at <= profile.goals.len(),
                own == profile_goals(*profile),
                goal_views(row@) == goals_in_order(done + own.take(at as int)),
            decreases profile.goals.len() - at,
        {
            let declared = &profile.goals[at];
            let goal = ProjectGoalView {
                goal_id: declared.id.clone(),
                activity_profile_id: profile.id.clone(),
                scope: project_scope(&profile.scope),
                metric: project_metric(&declared.metric),
                target: declared.target,
                deadline_unix_ms: declared.deadline_unix_ms,
                strategic_weight_milli: declared.strategic_weight_milli,
                best_effort: declared.best_effort,
            };
            proof {
                let next = done + own.take(at + 1);
                assert(own[at as int] == goal@);
                assert(next.drop_last() =~= done + own.take(at as int));
                assert(next.last() == goal@);
            }
            place_goal(&mut row, goal);
            at += 1;
        }
        proof {
            assert(own.take(at as int) =~= own);
            assert(profiles@.take(index + 1).drop_last() =~= profiles@.take(index as int));
            assert(profiles@.take(index + 1).last() == *profile);
        }
        index += 1;
    }
    assert(profiles@.take(index as int) =~= profiles@);
    row
}

proof fn lemma_goal_placed(row: Seq<GoalView>, goal: GoalView)
    ensures
        goal_placed(row, goal).len() == row.len() + 1,
        goal_placed(row, goal).to_multiset() =~= row.to_multiset().insert(goal),
    decreases row.len(),
{
    broadcast use vstd::seq_lib::group_to_multiset_ensures;

    if row.len() > 0 && goal_after(row.last(), goal) {
        lemma_goal_placed(row.drop_last(), goal);
        assert(row.drop_last().push(row.last()) =~= row);
    }
}

/// No goal is lost or added when the goals are put in order.
pub proof fn law_goals_are_kept(goals: Seq<GoalView>)
    ensures
        goals_in_order(goals).len() == goals.len(),
        goals_in_order(goals).to_multiset() =~= goals.to_multiset(),
    decreases goals.len(),
{
    broadcast use vstd::seq_lib::group_to_multiset_ensures;

    if goals.len() > 0 {
        law_goals_are_kept(goals.drop_last());
        lemma_goal_placed(goals_in_order(goals.drop_last()), goals.last());
        assert(goals.drop_last().push(goals.last()) =~= goals);
    }
}

/// What a fact holds: a value of its own, or a reference to an artifact.
#[derive(Debug, Clone, PartialEq, Eq)]
pub enum FactContent {
    Inline { value: String },
    Artifact { reference: String },
}

/// A fact as it was observed.
#[derive(Debug, Clone, PartialEq, Eq)]
pub struct FactRecord {
    pub scope: FactScope,
    pub key: String,
    pub content: FactContent,
    pub observed_at_unix_ms: u64,
    pub expires_at_unix_ms: u64,
    pub confidence_milli: u16,
    pub source_snapshot_id: String,
    pub schema_version: u32,
    pub resource_bundle_hash: String,
}

/// What a snapshot says of a fact's content: only of which sort it is.
#[derive(Debug, Clone, Copy, PartialEq, Eq, Structural)]
pub enum ProjectFactContentState {
    InlineRedacted,
    ArtifactRedacted,
}

/// A fact as a snapshot shows it.
#[derive(Debug, Clone, PartialEq, Eq)]
pub struct ProjectFactView {
    pub scope: ProjectScopeView,
    pub key: String,
    pub content_state: ProjectFactContentState,
    pub observed_at_unix_ms: u64,
    pub expires_at_unix_ms: u64,
    pub confidence_milli: u16,
    pub source_snapshot_id: String,
    pub fact_schema_version: u32,
    pub resource_bundle_hash: String,
}

pub open spec fn fact_shown(fact: FactRecord) -> ProjectFactView {
    ProjectFactView {
        scope: fact_scope_shown(fact.scope),
        key: fact.key,
        content_state: match fact.content {
            FactContent::Inline { .. } => ProjectFactContentState::InlineRedacted,
            FactContent::Artifact { .. } => ProjectFactContentState::ArtifactRedacted,
        },
        observed_at_unix_ms: fact.observed_at_unix_ms,
        expires_at_unix_ms: fact.expires_at_unix_ms,
        confidence_milli: fact.confidence_milli,
        source_snapshot_id: fact.source_snapshot_id,
        fact_schema_version: fact.schema_version,
        resource_bundle_hash: fact.resource_bundle_hash,
    }
}

/// The fact without its content.
pub fn project_fact(fact: &FactRecord) -> (shown: ProjectFactView)
    ensures
        shown == fact_shown(*fact),
{
    ProjectFactView {
        scope: project_fact_scope(&fact.scope),
        key: fact.key.clone(),
        content_state: match &fact.content {
            FactContent::Inline { .. } => ProjectFactContentState::InlineRedacted,
            FactContent::Artifact { .. } => ProjectFactContentState::ArtifactRedacted,
        },
        observed_at_unix_ms: fact.observed_at_unix_ms,
        expires_at_unix_ms: fact.expires_at_unix_ms,
        confidence_milli: fact.confidence_milli,
        source_snapshot_id: fact.source_snapshot_id.clone(),
        fact_schema_version: fact.schema_version,
        resource_bundle_hash: fact.resource_bundle_hash.clone(),
    }
}

/// A snapshot tells facts apart only by what is known of them, and by the sort
/// of their content: two facts that differ in the content alone are shown
/// alike.
pub proof fn law_fact_contents_stay_hidden(fact: FactRecord, content: FactContent)
    requires
        (content is Inline) == (fact.content is Inline),
    ensures
        fact_shown(FactRecord { content, ..fact }) == fact_shown(fact),
{
}

/// What an approval was given for.
#[derive(Debug, Clone, PartialEq, Eq)]
pub enum ApprovalTarget {
    Catalog { catalog_hash: String, catalog_version: u64 },
    Plan { plan_id: String, catalog_hash: String, catalog_version: u64 },
    Decision { decision_id: String, catalog_hash: String, catalog_version: u64 },
}

#[derive(Debug, Clone, Copy, PartialEq, Eq, Structural)]
pub enum ApprovalTargetKind {
    Catalog,
    Plan,
    Decision,
}

/// An approval that was given or refused.
#[derive(Debug, Clone, PartialEq, Eq)]
pub struct ApprovalDecisionRecord {
    pub approval_id: String,
    /// The name of the disposition.
    pub disposition: String,
    pub target: ApprovalTarget,
}

/// An approval as a snapshot shows it.
#[derive(Debug, Clone, PartialEq, Eq)]
pub struct ProjectApprovalView {
    pub approval_id: String,
    pub disposition: String,
    pub target_kind: ApprovalTargetKind,
    /// The plan or the decision; a catalog has none but its hash.
    pub target_id: Option<String>,
    pub catalog_hash: String,
    pub catalog_version: u64,
}

pub open spec fn approval_shown(approval: ApprovalDecisionRecord) -> ProjectApprovalView {
    let (target_kind, target_id, catalog_hash, catalog_version) = match approval.target {
        ApprovalTarget::Catalog { catalog_hash, catalog_version } => (
            ApprovalTargetKind::Catalog,
            None,
            catalog_hash,
            catalog_version,
        ),
        ApprovalTarget::Plan { plan_id, catalog_hash, catalog_version } => (
            ApprovalTargetKind::Plan,
            Some(plan_id),
            catalog_hash,
            catalog_version,
        ),
        ApprovalTarget::Decision { decision_id, catalog_hash, catalog_version } => (
            ApprovalTargetKind::Decision,
            Some(decision_id),
            catalog_hash,
            catalog_version,
        ),
    };
    ProjectApprovalView {
        approval_id: approval.approval_id,
        disposition: approval.disposition,
        target_kind,
        target_id,
        catalog_hash,
        catalog_version,
    }
}

pub fn project_approval(approval: &ApprovalDecisionRecord) -> (shown: ProjectApprovalView)
    ensures
        shown == approval_shown(*approval),
{
    let (target_kind, target_id, catalog_hash, catalog_version) = match &approval.target {
        ApprovalTarget::Catalog { catalog_hash, catalog_version } => (
            ApprovalTargetKind::Catalog,
            None,
            catalog_hash,
            *catalog_version,
        ),
        ApprovalTarget::Plan { plan_id, catalog_hash, catalog_version } => (
            ApprovalTargetKind::Plan,
            Some(plan_id.clone()),
            catalog_hash,
            *catalog_version,
        ),
        ApprovalTarget::Decision { decision_id, catalog_hash, catalog_version } => (
            ApprovalTargetKind::Decision,
            Some(decision_id.clone()),
            catalog_hash,
            *catalog_version,
        ),
    };
    ProjectApprovalView {
        approval_id: approval.approval_id.clone(),
        disposition: approval.disposition.clone(),
        target_kind,
        target_id,
        catalog_hash: catalog_hash.clone(),
        catalog_version,
    }
}

/// How severe an event is.
#[derive(Debug, Clone, Copy, PartialEq, Eq, Structural)]
pub enum DiagnosticSeverity {
    Fatal,
    /// Any other severity, by its rank.
    Other(u8),
}

/// An event that a snapshot shows as a diagnostic.
#[derive(Debug, Clone, PartialEq, Eq)]
pub struct ProjectDiagnosticProjection {
    pub sequence: u64,
    pub timestamp_unix_ms: u64,
    pub severity: DiagnosticSeverity,
    pub event_type: String,
}

/// A diagnostic as a snapshot shows it.
#[derive(Debug, Clone, PartialEq, Eq)]
pub struct ProjectDiagnosticView {
    pub sequence: u64,
    pub timestamp_unix_ms: u64,
    pub severity: DiagnosticSeverity,
    pub event_type: String,
    pub code: Option<String>,
    pub fatal: bool,
}

/// The diagnostic, without a code, and fatal only where its severity is.
pub open spec fn diagnostic_shown(diagnostic: ProjectDiagnosticProjection) -> ProjectDiagnosticView {
    ProjectDiagnosticView {
        sequence: diagnostic.sequence,
        timestamp_unix_ms: diagnostic.timestamp_unix_ms,
        severity: diagnostic.severity,
        event_type: diagnostic.event_type,
        code: None,
        fatal: diagnostic.severity == DiagnosticSeverity::Fatal,
    }
}

pub fn project_diagnostic(diagnostic: &ProjectDiagnosticProjection) -> (shown: ProjectDiagnosticView)
    ensures
        shown == diagnostic_shown(*diagnostic),
{
    ProjectDiagnosticView {
        sequence: diagnostic.sequence,
        timestamp_unix_ms: diagnostic.timestamp_unix_ms,
        severity: diagnostic.severity,
        event_type: diagnostic.event_type.clone(),
        code: None,
        fatal: diagnostic.severity == DiagnosticSeverity::Fatal,
    }
}

/// How an instance stands on the control plane.
#[derive(Debug, Clone, PartialEq, Eq)]
pub struct InstanceControlStatus {
    pub instance_alias: String,
    pub instance_id: InstanceId,
    pub lease_active: bool,
    pub queued_request_count: u32,
    pub takeover_cooldown_active: bool,
    pub destructive_step_active: bool,
    pub preempt_requested: bool,
}

/// How the control plane stands.
#[derive(Debug, Clone, PartialEq, Eq)]
pub struct RuntimeControlPlaneStatus {
    pub owner_epoch: OwnerEpoch,
    pub instances: Vec<InstanceControlStatus>,
}

/// An instance as a snapshot shows it.
#[derive(Debug, Clone, PartialEq, Eq)]
pub struct ProjectInstanceView {
    pub instance_alias: String,
    pub instance_id: InstanceId,
    pub lease_active: bool,
    pub queued_request_count: u32,
    pub takeover_cooldown_active: bool,
    pub destructive_step_active: bool,
    pub preempt_requested: bool,
}

pub open spec fn instance_shown(instance: InstanceControlStatus) -> ProjectInstanceView {
    ProjectInstanceView {
        instance_alias: instance.instance_alias,
        instance_id: instance.instance_id,
        lease_active: instance.lease_active,
        queued_request_count: instance.queued_request_count,
        takeover_cooldown_active: instance.takeover_cooldown_active,
        destructive_step_active: instance.destructive_step_active,
        preempt_requested: instance.preempt_requested,
    }
}

pub fn project_instance(instance: &InstanceControlStatus) -> (shown: ProjectInstanceView)
    ensures
        shown == instance_shown(*instance),
{
    ProjectInstanceView {
        instance_alias: instance.instance_alias.clone(),
        instance_id: instance.instance_id,
        lease_active: instance.lease_active,
        queued_request_count: instance.queued_request_count,
        takeover_cooldown_active: instance.takeover_cooldown_active,
        destructive_step_active: instance.destructive_step_active,
        preempt_requested: instance.preempt_requested,
    }
}

/// The runtime as a snapshot shows it.
#[derive(Debug, Clone, Copy, PartialEq, Eq, Structural)]
pub struct ProjectRuntimeView {
    pub owner_epoch: OwnerEpoch,
    pub ledger_position: u64,
    pub fatal: bool,
    pub instance_count: u32,
}

/// The project that a catalog makes.
#[derive(Debug, Clone, PartialEq, Eq)]
pub struct ProjectView {
    pub project_id: String,
}

/// The active catalog, as far as a snapshot shows it.
#[derive(Debug, Clone)]
pub struct ActiveCatalog {
    pub generation: CatalogGeneration,
    pub counts: CatalogCounts,
    pub profiles: Vec<GoalProfile>,
}

/// What a snapshot is made from.
#[derive(Debug)]
pub struct ProjectInterfaceProjection {
    pub ledger_position: u64,
    pub catalog: Option<ActiveCatalog>,
    pub instances: RuntimeControlPlaneStatus,
    pub facts: Vec<FactRecord>,
    pub decisions: PolicyDispatchPage,
    pub approvals: Vec<ApprovalDecisionRecord>,
    pub diagnostics: Vec<ProjectDiagnosticProjection>,
    pub fatal: bool,
}

/// A snapshot, but for its page of decisions, which is made to fit.
#[derive(Debug)]
pub struct ProjectResponse {
    pub ledger_position: u64,
    pub project: Option<ProjectView>,
    pub instances: Vec<ProjectInstanceView>,
    pub catalog: Option<ProjectCatalogView>,
    pub facts: Vec<ProjectFactView>,
    pub goals: Vec<ProjectGoalView>,
    pub approvals: Vec<ProjectApprovalView>,
    pub runtime: ProjectRuntimeView,
    pub diagnostics: Vec<ProjectDiagnosticView>,
    pub fit: ResponseFit,
}

/// What a snapshot shows of the catalog, and of no catalog.
pub open spec fn shows_active(response: ProjectResponse, catalog: Option<ActiveCatalog>) -> bool {
    match catalog {
        None => response.project is None && response.catalog is None && response.goals@.len() == 0,
        Some(active) => {
            &&& response.project matches Some(project) && project.project_id@
                == active.generation.catalog_id@
            &&& response.catalog matches Some(shown) && shows_catalog(
                shown,
                active.generation,
                active.counts,
                active.profiles@,
            )
            &&& goal_views(response.goals@) == goals_in_order(declared_goals(active.profiles@))
        },
    }
}

/// The snapshot shows each part of what it is made from.
pub open spec fn shows_projection(
    response: ProjectResponse,
    version: ContractVersion,
    projection: ProjectInterfaceProjection,
) -> bool {
    let control = projection.instances;
    &&& response.ledger_position == projection.ledger_position
    &&& shows_active(response, projection.catalog)
    &&& response.instances@ == control.instances@.map_values(
        |instance: InstanceControlStatus| instance_shown(instance),
    )
    &&& response.facts@ == projection.facts@.map_values(|fact: FactRecord| fact_shown(fact))
    &&& response.approvals@ == projection.approvals@.map_values(
        |approval: ApprovalDecisionRecord| approval_shown(approval),
    )
    &&& response.diagnostics@ == projection.diagnostics@.map_values(
        |diagnostic: ProjectDiagnosticProjection| diagnostic_shown(diagnostic),
    )
    &&& response.runtime == ProjectRuntimeView {
        owner_epoch: control.owner_epoch,
        ledger_position: projection.ledger_position,
        fatal: projection.fatal,
        instance_count: control.instances@.len() as u32,
    }
    &&& fit_begins(response.fit, version, projection.decisions)
}

fn project_instances(instances: &Vec<InstanceControlStatus>) -> (shown: Vec<ProjectInstanceView>)
    ensures
        shown@ == instances@.map_values(
            |instance: InstanceControlStatus| instance_shown(instance),
        ),
{
    let mut shown: Vec<ProjectInstanceView> = Vec::new();
    let mut index: usize = 0;
    while index < instances.len()
        invariant
            index <= instances.len(),
            shown@.len() == index,
            forall|i: int| 0 <= i < index ==> #[trigger] shown@[i] == instance_shown(instances@[i]),
        decreases instances.len() - index,
    {
        shown.push(project_instance(&instances[index]));
        index += 1;
    }
    assert(shown@ =~= instances@.map_values(
        |instance: InstanceControlStatus| instance_shown(instance),
    ));
    shown
}

fn project_facts(facts: &Vec<FactRecord>) -> (shown: Vec<ProjectFactView>)
    ensures
        shown@ == facts@.map_values(|fact: FactRecord| fact_shown(fact)),
{
    let mut shown: Vec<ProjectFactView> = Vec::new();
    let mut index: usize = 0;
    while index < facts.len()
        invariant
            index <= facts.len(),
            shown@.len() == index,
            forall|i: int| 0 <= i < index ==> #[trigger] shown@[i] == fact_shown(facts@[i]),
        decreases facts.len() - index,
    {
        shown.push(project_fact(&facts[index]));
        index += 1;
    }
    assert(shown@ =~= facts@.map_values(|fact: FactRecord| fact_shown(fact)));
    shown
}

fn project_approvals(approvals: &Vec<ApprovalDecisionRecord>) -> (shown: Vec<ProjectApprovalView>)
    ensures
        shown@ == approvals@.map_values(
            |approval: ApprovalDecisionRecord| approval_shown(approval),
        ),
{
    let mut shown: Vec<ProjectApprovalView> = Vec::new();
    let mut index: usize = 0;
    while index < approvals.len()
        invariant
            index <= approvals.len(),
            shown@.len() == index,
            forall|i: int| 0 <= i < index ==> #[trigger] shown@[i] == approval_shown(approvals@[i]),
        decreases approvals.len() - index,
    {
        shown.push(project_approval(&approvals[index]));
        index += 1;
    }
    assert(shown@ =~= approvals@.map_values(
        |approval: ApprovalDecisionRecord| approval_shown(approval),
    ));
    shown
}

fn project_diagnostics(diagnostics: &Vec<ProjectDiagnosticProjection>) -> (shown: Vec<
    ProjectDiagnosticView,
>)
    ensures
        shown@ == diagnostics@.map_values(
            |diagnostic: ProjectDiagnosticProjection| diagnostic_shown(diagnostic),
        ),
{
    let mut shown: Vec<ProjectDiagnosticView> = Vec::new();
    let mut index: usize = 0;
    while index < diagnostics.len()
        invariant
            index <= diagnostics.len(),
            shown@.len() == index,
            forall|i: int|
                0 <= i < index ==> #[trigger] shown@[i] == diagnostic_shown(diagnostics@[i]),
        decreases diagnostics.len() - index,
    {
        shown.push(project_diagnostic(&diagnostics[index]));
        index += 1;
    }
    assert(shown@ =~= diagnostics@.map_values(
        |diagnostic: ProjectDiagnosticProjection| diagnostic_shown(diagnostic),
    ));
    shown
}

impl ProjectInterfaceProjection {
    /// The snapshot under the contract that the client's request gave. A
    /// client with which there is no contract is refused first, then a catalog
    /// that cannot be shown, then a client that would need pages and knows
    /// none.
    pub fn into_response(self, negotiation: Result<ContractVersion, &'static str>) -> (result:
        RuntimeHostResult<ProjectResponse>)
        ensures
            match negotiation {
                Err(code) => result matches Err(error) && error == negotiation_error(code),
                Ok(version) => if self.catalog matches Some(active) && counts_overflow(
                    active.counts,
                    active.profiles@,
                ) {
                    result matches Err(error) && error == interface_fatal(
                        "project_interface_count_overflow",
                    )
                } else if version == ContractVersion::V1 && self.decisions.has_more {
                    result matches Err(error) && error == interface_refusal(
                        "project_interface_v1_requires_v2",
                    )
                } else {
                    result matches Ok(response) && shows_projection(response, version, self)
                },
            },
    {
        let version = negotiated_version(negotiation)?;
        let (project, catalog, goals) = match &self.catalog {
            None => (None, None, Vec::new()),
            Some(active) => {
                let shown = project_catalog(&active.generation, &active.counts, &active.profiles)?;
                let project = ProjectView { project_id: shown.catalog_id.clone() };
                (Some(project), Some(shown), project_goals(&active.profiles))
            },
        };
        let fit = ResponseFit::begin(version, &self.decisions)?;
        Ok(
            ProjectResponse {
                ledger_position: self.ledger_position,
                project,
                instances: project_instances(&self.instances.instances),
                catalog,
                facts: project_facts(&self.facts),
                goals,
                approvals: project_approvals(&self.approvals),
                runtime: ProjectRuntimeView {
                    owner_epoch: self.instances.owner_epoch,
                    ledger_position: self.ledger_position,
                    fatal: self.fatal,
                    instance_count: self.instances.instances.len() as u32,
                },
                diagnostics: project_diagnostics(&self.diagnostics),
                fit,
            },
        )
    }
}

/// The goals of a row follow each other: none comes right before one that it
/// belongs after.
pub open spec fn goals_follow(row: Seq<GoalView>) -> bool {
    forall|i: int|
        0 < i < row.len() ==> !goal_after(row[i - 1], #[trigger] row[i])
}

proof fn lemma_goal_order_is_strict(left: GoalView, right: GoalView)
    requires
        goal_after(left, right),
    ensures
        !goal_after(right, left),
{
    lemma_text_order(
        left.activity_profile_id,
        right.activity_profile_id,
        left.activity_profile_id,
    );
    lemma_text_order(left.goal_id, right.goal_id, left.goal_id);
}

proof fn lemma_placed_goals_follow(row: Seq<GoalView>, goal: GoalView)
    requires
        goals_follow(row),
    ensures
        goals_follow(goal_placed(row, goal)),
        goal_placed(row, goal).len() == row.len() + 1,
        goal_placed(row, goal).last() == goal || (row.len() > 0 && goal_placed(row, goal).last()
            == row.last()),
    decreases row.len(),
{
    let placed = goal_placed(row, goal);
    if row.len() == 0 || !goal_after(row.last(), goal) {
        assert forall|i: int| 0 < i < placed.len() implies !goal_after(
            placed[i - 1],
            #[trigger] placed[i],
        ) by {
            if i < row.len() {
                assert(placed[i] == row[i] && placed[i - 1] == row[i - 1]);
            } else {
                assert(placed[i] == goal && placed[i - 1] == row.last());
            }
        }
    } else {
        let earlier = row.drop_last();
        assert(goals_follow(earlier)) by {
            assert forall|i: int| 0 < i < earlier.len() implies !goal_after(
                earlier[i - 1],
                #[trigger] earlier[i],
            ) by {
                assert(earlier[i] == row[i] && earlier[i - 1] == row[i - 1]);
            }
        }
        lemma_placed_goals_follow(earlier, goal);
        lemma_goal_order_is_strict(row.last(), goal);
        let front = goal_placed(earlier, goal);
        assert forall|i: int| 0 < i < placed.len() implies !goal_after(
            placed[i - 1],
            #[trigger] placed[i],
        ) by {
            if i < front.len() {
                assert(placed[i] == front[i] && placed[i - 1] == front[i - 1]);
            } else {
                assert(placed[i] == row.last() && placed[i - 1] == front.last());
                if front.last() != goal {
                    assert(row[row.len() - 1] == row.last());
                    assert(earlier.last() == row[row.len() - 2]);
                }
            }
        }
    }
}

/// Goals are shown in the order of their profiles' names, and within a profile
/// in the order of their own.
pub proof fn law_goals_are_in_order(goals: Seq<GoalView>, index: int)
    requires
        0 < index < goals.len(),
    ensures
        ({
            let earlier = goals_in_order(goals)[index - 1];
            let later = goals_in_order(goals)[index];
            !text_less(later.activity_profile_id, earlier.activity_profile_id) && (
            later.activity_profile_id == earlier.activity_profile_id ==> !text_less(
                later.goal_id,
                earlier.goal_id,
            ))
        }),
{
    lemma_goals_follow(goals);
    assert(!goal_after(goals_in_order(goals)[index - 1], goals_in_order(goals)[index]));
}

proof fn lemma_goals_follow(goals: Seq<GoalView>)
    ensures
        goals_follow(goals_in_order(goals)),
        goals_in_order(goals).len() == goals.len(),
    decreases goals.len(),
{
    if goals.len() > 0 {
        lemma_goals_follow(goals.drop_last());
        lemma_placed_goals_follow(goals_in_order(goals.drop_last()), goals.last());
    }
}

/// Every goal that a profile declares is shown, under that profile, with its
/// own target, deadline and weight.
pub proof fn law_every_goal_is_declared(profiles: Seq<GoalProfile>, profile: int, goal: int) -> (at:
    int)
    requires
        0 <= profile < profiles.len(),
        0 <= goal < profiles[profile].goals@.len(),
    ensures
        0 <= at < declared_goals(profiles).len(),
        ({
            let shown = declared_goals(profiles)[at];
            let declared = profiles[profile].goals@[goal];
            &&& shown.goal_id == declared.id@
            &&& shown.activity_profile_id == profiles[profile].id@
            &&& shown.target == declared.target
            &&& shown.deadline_unix_ms == declared.deadline_unix_ms
            &&& shown.strategic_weight_milli == declared.strategic_weight_milli
            &&& shown.best_effort == declared.best_effort
        }),
    decreases profiles.len(),
{
    let earlier = declared_goals(profiles.drop_last());
    if profile == profiles.len() - 1 {
        let at = earlier.len() + goal;
        assert(declared_goals(profiles)[at] == profile_goals(profiles.last())[goal]);
        at
    } else {
        let at = law_every_goal_is_declared(profiles.drop_last(), profile, goal);
        assert(declared_goals(profiles)[at] == earlier[at]);
        at
    }
}

/// A diagnostic is shown as fatal exactly when it is, without its code; an
/// approval names what it was given for; an instance is shown as it is.
pub proof fn law_shown_items_keep_their_meaning(
    diagnostic: ProjectDiagnosticProjection,
    approval: ApprovalDecisionRecord,
    instance: InstanceControlStatus,
    fact: FactRecord,
)
    ensures
        diagnostic_shown(diagnostic).fatal <==> diagnostic.severity == DiagnosticSeverity::Fatal,
        diagnostic_shown(diagnostic).code is None,
        diagnostic_shown(diagnostic).sequence == diagnostic.sequence,
        diagnostic_shown(diagnostic).severity == diagnostic.severity,
        approval_shown(approval).approval_id == approval.approval_id,
        approval_shown(approval).disposition == approval.disposition,
        approval.target matches ApprovalTarget::Catalog { catalog_hash, catalog_version }
            ==> approval_shown(approval).target_kind == ApprovalTargetKind::Catalog
            && approval_shown(approval).target_id is None && approval_shown(approval).catalog_hash
            == catalog_hash && approval_shown(approval).catalog_version == catalog_version,
        approval.target matches ApprovalTarget::Plan { plan_id, catalog_hash, catalog_version }
            ==> approval_shown(approval).target_kind == ApprovalTargetKind::Plan && approval_shown(
            approval,
        ).target_id == Some(plan_id) && approval_shown(approval).catalog_hash == catalog_hash
            && approval_shown(approval).catalog_version == catalog_version,
        approval.target matches ApprovalTarget::Decision {
            decision_id,
            catalog_hash,
            catalog_version,
        } ==> approval_shown(approval).target_kind == ApprovalTargetKind::Decision
            && approval_shown(approval).target_id == Some(decision_id) && approval_shown(
            approval,
        ).catalog_hash == catalog_hash && approval_shown(approval).catalog_version
            == catalog_version,
        instance_shown(instance).instance_id == instance.instance_id,
        instance_shown(instance).lease_active == instance.lease_active,
        instance_shown(instance).takeover_cooldown_active == instance.takeover_cooldown_active,
        instance_shown(instance).destructive_step_active == instance.destructive_step_active,
        instance_shown(instance).preempt_requested == instance.preempt_requested,
        instance_shown(instance).queued_request_count == instance.queued_request_count,
        fact_shown(fact).content_state == ProjectFactContentState::InlineRedacted
            <==> fact.content is Inline,
        fact_shown(fact).expires_at_unix_ms == fact.expires_at_unix_ms,
        fact_shown(fact).observed_at_unix_ms == fact.observed_at_unix_ms,
        fact_shown(fact).confidence_milli == fact.confidence_milli,
{
}

/// Scopes are shown as scopes of the same kind and name.
pub proof fn law_scopes_are_shown_as_they_are(left: ScopeSelector, right: ScopeSelector)
    ensures
        scope_shown(left) == scope_shown(right) ==> left == right,
        scope_shown(left) is Instance <==> left is Instance,
        scope_shown(left) is Server <==> left is Server,
        scope_shown(left) is Game <==> left is Game,
{
}

/// A response that is too large is the asker's to repair; any other fault of
/// the contract stops the host.
pub proof fn law_only_size_is_the_askers(code: &'static str)
    ensures
        contract_error(code).fatal <==> code@ != "project_interface_response_too_large"@,
        contract_error(code).code == code,
{
}

/// A response says that decisions are left out exactly when older ones exist or
/// some had to go to make it fit.
pub proof fn law_left_out_decisions_are_told(fit: ResponseFit)
    requires
        fit.decisions@.len() <= fit.original_count,
    ensures
        fit.leaves_out() <==> fit.older_exist || fit.decisions@.len() != fit.original_count,
{
}

/// A decision is shown with its own names, state and grounds, and with the code
/// of each of its reasons in order.
pub proof fn law_decision_is_shown_as_it_is(
    shown: ProjectDecisionView,
    dispatch: ProjectionView,
    index: int,
)
    requires
        shows(shown, dispatch),
    ensures
        shown.decision_id@ == dispatch.data.decision_id,
        shown.task_id@ == dispatch.data.task_id,
        shown.instance_id@ == dispatch.data.instance_id,
        shown.state == dispatch.state,
        shown.urgency_milli == dispatch.data.urgency_milli,
        shown.catalog_version == dispatch.data.catalog_version,
        shown.reason_codes@.len() == dispatch.data.reasons.len(),
        0 <= index < dispatch.data.reasons.len() ==> shown.reason_codes@[index]@
            == dispatch.data.reasons[index].0,
{
    assert(texts(shown.reason_codes@).len() == shown.reason_codes@.len());
    if 0 <= index < dispatch.data.reasons.len() {
        assert(texts(shown.reason_codes@)[index] == dispatch.data.reasons[index].0);
    }
}

/// A first fit shows every decision of its page, in the page's order.
pub proof fn law_first_fit_shows_the_page(
    fit: ResponseFit,
    version: ContractVersion,
    page: PolicyDispatchPage,
    index: int,
)
    requires
        fit_begins(fit, version, page),
        0 <= index < page.dispatches@.len(),
    ensures
        fit.decisions@.len() == page.dispatches@.len(),
        fit.decisions@[index].0 == page.dispatches@[index].intent_sequence,
        fit.decisions@[index].1.decision_id@ == page.dispatches@[index]@.data.decision_id,
        fit.older_exist == page.has_more,
        fit.leaves_out() == page.has_more,
{
    assert(shows(fit.decisions@[index].1, page.dispatches@[index]@));
}

/// Without an active catalog no project, catalog or goal is shown; with one its
/// identity and its counts are.
pub proof fn law_active_catalog_is_shown(
    response: ProjectResponse,
    version: ContractVersion,
    projection: ProjectInterfaceProjection,
)
    requires
        shows_projection(response, version, projection),
    ensures
        projection.catalog is None <==> response.catalog is None,
        projection.catalog is None ==> response.project is None && response.goals@.len() == 0,
        projection.catalog matches Some(active) ==> (response.catalog matches Some(shown)
            && shown.catalog_hash@ == active.generation.catalog_hash@ && shown.catalog_version
            == active.generation.catalog_version && shown.task_count == active.counts.tasks
            && shown.pool_count == active.counts.pools && shown.timeline_event_count
            == active.counts.timeline_events && shown.activity_profile_count
            == active.profiles@.len()) && (response.project matches Some(project)
            && project.project_id@ == active.generation.catalog_id@),
        response.runtime.fatal == projection.fatal,
        response.runtime.owner_epoch == projection.instances.owner_epoch,
        response.ledger_position == projection.ledger_position,
        response.facts@.len() == projection.facts@.len(),
        response.instances@.len() == projection.instances.instances@.len(),
        response.approvals@.len() == projection.approvals@.len(),
        response.diagnostics@.len() == projection.diagnostics@.len(),
{
}

} // verus!
