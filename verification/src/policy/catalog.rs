//! The parts of a compiled catalog that the runtime's own rules read.

use vstd::prelude::*;

use crate::error::{fatal_error, request_error, RuntimeErrorCode, RuntimeHostError};
use crate::performance_control::LoadProfile;
use crate::search::{first_position, lemma_first_position, lemma_no_position, lemma_position};
use crate::text::{copy_optional_text, copy_texts, optional_text, same_text, texts};

verus! {

/// What a task or a profile applies to.
#[derive(Debug, Clone)]
pub enum ScopeSelector {
    Instance { instance_id: String },
    Server { server_id: String },
    Game { game_id: String },
}

/// How often and how long a task may run.
#[derive(Debug, Clone, Copy, PartialEq, Eq, Structural)]
pub struct LoopBudget {
    pub daily_limit: u32,
    pub window_iteration_limit: u32,
    pub max_runtime_ms: u64,
}

/// What follows once a task may not be retried any more.
#[derive(Debug, Clone, Copy, PartialEq, Eq, Structural)]
pub enum FailureAction {
    Continue,
    Pause,
}

#[derive(Debug, Clone, Copy, PartialEq, Eq, Structural)]
pub struct FailurePolicy {
    pub action: FailureAction,
    pub retry_limit: u16,
    pub retry_backoff_ms: u64,
    pub escalation_threshold: u16,
}

#[derive(Debug, Clone)]
pub struct TaskSpec {
    pub id: String,
    pub procedure_ref: String,
    pub operation_id: String,
    pub expected_duration_ms: u64,
    pub yield_points: Vec<String>,
    pub load_profile: LoadProfile,
    pub scope: ScopeSelector,
    pub sensitive: bool,
    pub loop_budget: LoopBudget,
    pub on_failure: FailurePolicy,
    pub next_run_clamp_ms: u64,
}

/// A stretch of the week in which a profile is active.
#[derive(Debug, Clone)]
pub struct ActivityWindow {
    pub utc_offset_minutes: i32,
    /// Days of the week, Monday is 1.
    pub weekdays: Vec<u8>,
    pub start_minute_of_day: u16,
    pub end_minute_of_day: u16,
}

/// How much detection a window may take.
#[derive(Debug, Clone, Copy, PartialEq, Eq, Structural)]
pub struct DetectionBudget {
    pub window_dispatch_limit: u32,
    pub window_runtime_ms: u64,
    pub expected_duration_ms: u64,
}

#[derive(Debug, Clone)]
pub struct ActivityProfile {
    pub id: String,
    pub scope: ScopeSelector,
    pub windows: Vec<ActivityWindow>,
    pub minimum_interval_ms: u64,
    pub maximum_interval_ms: u64,
    pub daily_budget: u32,
    pub max_window_iterations: u32,
    pub session_max_ms: u64,
    pub detection_budget: DetectionBudget,
}

/// How many records a catalog has.
#[derive(Debug, Clone, Copy, PartialEq, Eq, Structural)]
pub struct CatalogCounts {
    pub tasks: usize,
    pub pools: usize,
    pub activity_profiles: usize,
    pub timeline_events: usize,
}

/// A compiled catalog.
#[derive(Debug, Clone)]
pub struct PolicyCatalog {
    pub catalog_id: String,
    pub catalog_version: u64,
    pub catalog_hash: String,
    pub approval_refs: Vec<String>,
    pub tasks: Vec<TaskSpec>,
    pub profiles: Vec<ActivityProfile>,
    pub counts: CatalogCounts,
}

/// A request that a policy rule refuses.
pub open spec fn policy_request(code: &'static str, operation: &'static str) -> RuntimeHostError {
    request_error(code, operation, RuntimeErrorCode::InvalidRequest)
}

/// A fatal error of a policy rule.
pub open spec fn policy_fatal(code: &'static str, operation: &'static str) -> RuntimeHostError {
    fatal_error(code, operation, RuntimeErrorCode::RuntimeFatal)
}

pub fn request(code: &'static str, operation: &'static str) -> (error: RuntimeHostError)
    ensures
        error == policy_request(code, operation),
{
    RuntimeHostError::request(code, operation, RuntimeErrorCode::InvalidRequest)
}

pub fn fatal(code: &'static str, operation: &'static str) -> (error: RuntimeHostError)
    ensures
        error == policy_fatal(code, operation),
{
    RuntimeHostError::fatal(code, operation, RuntimeErrorCode::RuntimeFatal)
}

pub open spec fn task_named(id: Seq<char>) -> spec_fn(TaskSpec) -> bool {
    |task: TaskSpec| task.id@ == id
}

pub open spec fn profile_named(id: Seq<char>) -> spec_fn(ActivityProfile) -> bool {
    |profile: ActivityProfile| profile.id@ == id
}

impl PolicyCatalog {
    /// The position of the first task with an id.
    pub open spec fn task_position(&self, id: Seq<char>) -> Option<int> {
        first_position(self.tasks@, task_named(id))
    }

    /// The position of the first profile with an id.
    pub open spec fn profile_position(&self, id: Seq<char>) -> Option<int> {
        first_position(self.profiles@, profile_named(id))
    }

    pub fn find_task(&self, id: &str) -> (found: Option<usize>)
        ensures
            match found {
                Some(index) => self.task_position(id@) == Some(index as int) && index
                    < self.tasks@.len() && self.tasks@[index as int].id@ == id@,
                None => self.task_position(id@) is None,
            },
    {
        let ghost wanted = task_named(id@);
        let mut index: usize = 0;
        while index < self.tasks.len()
            invariant
                index <= self.tasks.len(),
                wanted == task_named(id@),
                forall|i: int| 0 <= i < index ==> !wanted(#[trigger] self.tasks@[i]),
            decreases self.tasks.len() - index,
        {
            if same_text(self.tasks[index].id.as_str(), id) {
                proof {
                    lemma_first_position(self.tasks@, wanted, index as int);
                }
                return Some(index);
            }
            index += 1;
        }
        proof {
            lemma_no_position(self.tasks@, wanted);
        }
        None
    }

    pub fn find_profile(&self, id: &str) -> (found: Option<usize>)
        ensures
            match found {
                Some(index) => self.profile_position(id@) == Some(index as int) && index
                    < self.profiles@.len() && self.profiles@[index as int].id@ == id@,
                None => self.profile_position(id@) is None,
            },
    {
        let ghost wanted = profile_named(id@);
        let mut index: usize = 0;
        while index < self.profiles.len()
            invariant
                index <= self.profiles.len(),
                wanted == profile_named(id@),
                forall|i: int| 0 <= i < index ==> !wanted(#[trigger] self.profiles@[i]),
            decreases self.profiles.len() - index,
        {
            if same_text(self.profiles[index].id.as_str(), id) {
                proof {
                    lemma_first_position(self.profiles@, wanted, index as int);
                }
                return Some(index);
            }
            index += 1;
        }
        proof {
            lemma_no_position(self.profiles@, wanted);
        }
        None
    }
}

/// What an intent may rely on.
#[derive(Debug, Clone)]
pub struct DispatchPrerequisites {
    pub fencing_required: bool,
    pub evaluated_at_unix_ms: u64,
    pub facts_fresh_until_unix_ms: Option<u64>,
    pub activity_profile_id: String,
    pub daily_limit: u32,
    pub window_iteration_limit: u32,
    pub max_runtime_ms: u64,
    pub urgency_milli: u16,
}

/// A decision to run a task on an instance.
#[derive(Debug, Clone)]
pub struct DispatchIntent {
    pub decision_id: String,
    pub task_id: String,
    pub instance_id: String,
    pub operation_id: String,
    pub procedure_ref: String,
    pub package_digest: Option<String>,
    pub procedure_binding_digest: Option<String>,
    pub catalog_hash: String,
    pub catalog_version: u64,
    pub input_ledger_position: u64,
    pub fact_snapshot_id: String,
    pub approval_refs: Vec<String>,
    pub reason_chain_id: String,
    pub expected_duration_ms: u64,
    pub yield_points: Vec<String>,
    pub load_profile: LoadProfile,
    pub prerequisites: DispatchPrerequisites,
}

/// The value of an intent.
pub struct IntentView {
    pub decision_id: Seq<char>,
    pub task_id: Seq<char>,
    pub instance_id: Seq<char>,
    pub operation_id: Seq<char>,
    pub procedure_ref: Seq<char>,
    pub package_digest: Option<Seq<char>>,
    pub procedure_binding_digest: Option<Seq<char>>,
    pub catalog_hash: Seq<char>,
    pub catalog_version: u64,
    pub input_ledger_position: u64,
    pub fact_snapshot_id: Seq<char>,
    pub approval_refs: Seq<Seq<char>>,
    pub reason_chain_id: Seq<char>,
    pub expected_duration_ms: u64,
    pub yield_points: Seq<Seq<char>>,
    pub load_profile: LoadProfile,
    pub prerequisites: PrerequisitesView,
}

/// The value of an intent's prerequisites.
pub struct PrerequisitesView {
    pub fencing_required: bool,
    pub evaluated_at_unix_ms: u64,
    pub facts_fresh_until_unix_ms: Option<u64>,
    pub activity_profile_id: Seq<char>,
    pub daily_limit: u32,
    pub window_iteration_limit: u32,
    pub max_runtime_ms: u64,
    pub urgency_milli: u16,
}

impl View for DispatchPrerequisites {
    type V = PrerequisitesView;

    open spec fn view(&self) -> PrerequisitesView {
        PrerequisitesView {
            fencing_required: self.fencing_required,
            evaluated_at_unix_ms: self.evaluated_at_unix_ms,
            facts_fresh_until_unix_ms: self.facts_fresh_until_unix_ms,
            activity_profile_id: self.activity_profile_id@,
            daily_limit: self.daily_limit,
            window_iteration_limit: self.window_iteration_limit,
            max_runtime_ms: self.max_runtime_ms,
            urgency_milli: self.urgency_milli,
        }
    }
}

impl View for DispatchIntent {
    type V = IntentView;

    open spec fn view(&self) -> IntentView {
        IntentView {
            decision_id: self.decision_id@,
            task_id: self.task_id@,
            instance_id: self.instance_id@,
            operation_id: self.operation_id@,
            procedure_ref: self.procedure_ref@,
            package_digest: optional_text(self.package_digest),
            procedure_binding_digest: optional_text(self.procedure_binding_digest),
            catalog_hash: self.catalog_hash@,
            catalog_version: self.catalog_version,
            input_ledger_position: self.input_ledger_position,
            fact_snapshot_id: self.fact_snapshot_id@,
            approval_refs: texts(self.approval_refs@),
            reason_chain_id: self.reason_chain_id@,
            expected_duration_ms: self.expected_duration_ms,
            yield_points: texts(self.yield_points@),
            load_profile: self.load_profile,
            prerequisites: self.prerequisites@,
        }
    }
}

impl DispatchIntent {
    /// The same intent once more.
    pub fn copy(&self) -> (intent: Self)
        ensures
            intent@ == self@,
    {
        DispatchIntent {
            decision_id: self.decision_id.clone(),
            task_id: self.task_id.clone(),
            instance_id: self.instance_id.clone(),
            operation_id: self.operation_id.clone(),
            procedure_ref: self.procedure_ref.clone(),
            package_digest: copy_optional_text(&self.package_digest),
            procedure_binding_digest: copy_optional_text(&self.procedure_binding_digest),
            catalog_hash: self.catalog_hash.clone(),
            catalog_version: self.catalog_version,
            input_ledger_position: self.input_ledger_position,
            fact_snapshot_id: self.fact_snapshot_id.clone(),
            approval_refs: copy_texts(&self.approval_refs),
            reason_chain_id: self.reason_chain_id.clone(),
            expected_duration_ms: self.expected_duration_ms,
            yield_points: copy_texts(&self.yield_points),
            load_profile: self.load_profile,
            prerequisites: DispatchPrerequisites {
                fencing_required: self.prerequisites.fencing_required,
                evaluated_at_unix_ms: self.prerequisites.evaluated_at_unix_ms,
                facts_fresh_until_unix_ms: self.prerequisites.facts_fresh_until_unix_ms,
                activity_profile_id: self.prerequisites.activity_profile_id.clone(),
                daily_limit: self.prerequisites.daily_limit,
                window_iteration_limit: self.prerequisites.window_iteration_limit,
                max_runtime_ms: self.prerequisites.max_runtime_ms,
                urgency_milli: self.prerequisites.urgency_milli,
            },
        }
    }
}

/// A task is found by its name, the first one of that name, and not found only
/// when no task has it; profiles likewise.
pub proof fn law_entries_are_found_by_name(catalog: PolicyCatalog, id: Seq<char>, index: int)
    ensures
        catalog.task_position(id) matches Some(first) ==> 0 <= first < catalog.tasks@.len()
            && catalog.tasks@[first].id@ == id && (0 <= index < first ==> catalog.tasks@[index].id@
            != id),
        0 <= index < catalog.tasks@.len() && catalog.tasks@[index].id@ == id
            ==> catalog.task_position(id) is Some,
        catalog.profile_position(id) matches Some(first) ==> 0 <= first < catalog.profiles@.len()
            && catalog.profiles@[first].id@ == id && (0 <= index < first
            ==> catalog.profiles@[index].id@ != id),
        0 <= index < catalog.profiles@.len() && catalog.profiles@[index].id@ == id
            ==> catalog.profile_position(id) is Some,
{
    lemma_position(catalog.tasks@, task_named(id));
    lemma_position(catalog.profiles@, profile_named(id));
    if 0 <= index < catalog.tasks@.len() {
        assert(task_named(id)(catalog.tasks@[index]) == (catalog.tasks@[index].id@ == id));
    }
    if 0 <= index < catalog.profiles@.len() {
        assert(profile_named(id)(catalog.profiles@[index]) == (catalog.profiles@[index].id@
            == id));
    }
}

} // verus!
