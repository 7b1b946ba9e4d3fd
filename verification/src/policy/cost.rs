//! What a policy evaluation costs.

use vstd::prelude::*;

use crate::error::{RuntimeHostError, RuntimeHostResult};
use crate::policy::cadence::PolicyRecomputeKind;
use crate::policy::catalog::{fatal, policy_fatal, CatalogCounts};

verus! {

/// Separates cadence requests from the current full scan without changing the pure evaluator API.
#[derive(Debug, Clone, Copy, PartialEq, Eq, Structural)]
pub enum PolicyEvaluationExecution {
    FullCatalogScan,
}

/// Deterministic input cardinalities used to budget a policy evaluation.
#[derive(Debug, Clone, Copy, PartialEq, Eq, Structural)]
pub struct PolicyEvaluationCost {
    pub catalog_records: u64,
    pub catalog_tasks: u64,
    pub fact_records: u64,
    pub outcome_records: u64,
    pub task_state_records: u64,
    pub instance_records: u64,
    pub resource_records: u64,
    pub task_instance_pairs: u64,
    pub work_units: u64,
}

/// Runtime-side timing and cost evidence for one non-deferred policy evaluation.
#[derive(Debug, Clone, Copy, PartialEq, Eq, Structural)]
pub struct PolicyEvaluationMeasurement {
    pub sampled_at_monotonic_ms: u64,
    pub elapsed_micros: u64,
    pub requested_recompute: PolicyRecomputeKind,
    pub execution: PolicyEvaluationExecution,
    pub cost: PolicyEvaluationCost,
}

/// How many records go into an evaluation besides the catalog.
#[derive(Debug, Clone, Copy, PartialEq, Eq, Structural)]
pub struct EvaluationInputCounts {
    pub facts: usize,
    pub outcomes: usize,
    pub tasks: usize,
    pub instances: usize,
    pub pools: usize,
    pub hosts: usize,
}

/// All records of a catalog.
pub open spec fn all_catalog_records(counts: CatalogCounts) -> int {
    counts.tasks + counts.pools + counts.activity_profiles + counts.timeline_events
}

/// Every pair of a task and an instance.
pub open spec fn task_pairs(counts: CatalogCounts, inputs: EvaluationInputCounts) -> int {
    counts.tasks * inputs.instances
}

/// The work of an evaluation: every record once, and every pair of a task and
/// an instance.
pub open spec fn total_work(counts: CatalogCounts, inputs: EvaluationInputCounts) -> int {
    all_catalog_records(counts) + inputs.facts + inputs.outcomes + inputs.tasks + inputs.instances
        + (inputs.pools + inputs.hosts) + task_pairs(counts, inputs)
}

pub open spec fn measurement_overflow() -> RuntimeHostError {
    policy_fatal("policy_evaluation_measurement_overflow", "measure_policy_evaluation")
}

fn policy_evaluation_measurement_overflow() -> (error: RuntimeHostError)
    ensures
        error == measurement_overflow(),
{
    fatal("policy_evaluation_measurement_overflow", "measure_policy_evaluation")
}

fn plus(left: u64, right: u64) -> (result: RuntimeHostResult<u64>)
    ensures
        left + right <= u64::MAX ==> result == Ok::<_, RuntimeHostError>((left + right) as u64),
        left + right > u64::MAX ==> result == Err::<u64, _>(measurement_overflow()),
{
    match left.checked_add(right) {
        Some(sum) => Ok(sum),
        None => Err(policy_evaluation_measurement_overflow()),
    }
}

/// Counts what goes into an evaluation. Only a total that does not fit is
/// refused.
pub fn policy_evaluation_cost(counts: &CatalogCounts, inputs: &EvaluationInputCounts) -> (result:
    RuntimeHostResult<PolicyEvaluationCost>)
    ensures
        total_work(*counts, *inputs) <= u64::MAX ==> result == Ok::<_, RuntimeHostError>(
            PolicyEvaluationCost {
                catalog_records: all_catalog_records(*counts) as u64,
                catalog_tasks: counts.tasks as u64,
                fact_records: inputs.facts as u64,
                outcome_records: inputs.outcomes as u64,
                task_state_records: inputs.tasks as u64,
                instance_records: inputs.instances as u64,
                resource_records: (inputs.pools + inputs.hosts) as u64,
                task_instance_pairs: task_pairs(*counts, *inputs) as u64,
                work_units: total_work(*counts, *inputs) as u64,
            },
        ),
        total_work(*counts, *inputs) > u64::MAX ==> result == Err::<PolicyEvaluationCost, _>(
            measurement_overflow(),
        ),
{
    proof {
        assert(task_pairs(*counts, *inputs) >= 0) by (nonlinear_arith)
            requires
                task_pairs(*counts, *inputs) == counts.tasks * inputs.instances,
        ;
    }
    let catalog_tasks: u64 = counts.tasks as u64;
    let instance_records: u64 = inputs.instances as u64;
    let catalog_records = plus(
        plus(plus(catalog_tasks, counts.pools as u64)?, counts.activity_profiles as u64)?,
        counts.timeline_events as u64,
    )?;
    let resource_records = plus(inputs.pools as u64, inputs.hosts as u64)?;
    let task_instance_pairs: u64 = match catalog_tasks.checked_mul(instance_records) {
        Some(pairs) => pairs,
        None => {
            return Err(policy_evaluation_measurement_overflow());
        },
    };
    let mut work_units = plus(catalog_records, inputs.facts as u64)?;
    work_units = plus(work_units, inputs.outcomes as u64)?;
    work_units = plus(work_units, inputs.tasks as u64)?;
    work_units = plus(work_units, instance_records)?;
    work_units = plus(work_units, resource_records)?;
    work_units = plus(work_units, task_instance_pairs)?;
    Ok(
        PolicyEvaluationCost {
            catalog_records,
            catalog_tasks,
            fact_records: inputs.facts as u64,
            outcome_records: inputs.outcomes as u64,
            task_state_records: inputs.tasks as u64,
            instance_records,
            resource_records,
            task_instance_pairs,
            work_units,
        },
    )
}

/// The work of an evaluation grows with every record by one, and with every
/// instance by one and by the number of tasks that could run on it.
pub proof fn law_work_is_counted_once(counts: CatalogCounts, inputs: EvaluationInputCounts)
    requires
        inputs.instances < usize::MAX,
        inputs.facts < usize::MAX,
        counts.pools < usize::MAX,
    ensures
        total_work(
            counts,
            EvaluationInputCounts { instances: (inputs.instances + 1) as usize, ..inputs },
        ) == total_work(counts, inputs) + 1 + counts.tasks,
        total_work(
            counts,
            EvaluationInputCounts { facts: (inputs.facts + 1) as usize, ..inputs },
        ) == total_work(counts, inputs) + 1,
        total_work(
            CatalogCounts { pools: (counts.pools + 1) as usize, ..counts },
            inputs,
        ) == total_work(counts, inputs) + 1,
        inputs.instances == 0 ==> total_work(counts, inputs) == counts.tasks + counts.pools
            + counts.activity_profiles + counts.timeline_events + inputs.facts + inputs.outcomes
            + inputs.tasks + inputs.pools + inputs.hosts,
{
    assert(counts.tasks * (inputs.instances + 1) == counts.tasks * inputs.instances + counts.tasks)
        by (nonlinear_arith);
    assert(inputs.instances == 0 ==> counts.tasks * inputs.instances == 0) by (nonlinear_arith);
}

} // verus!
