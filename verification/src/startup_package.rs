//! Packages the host schedules by itself: the startup package of an instance
//! and the packages of a recovery ladder.

use vstd::prelude::*;
use vstd::string::StringExecFns;

use crate::error::{
    fatal_error, plain_error, DetailedError, DetailedErrorView, RuntimeErrorCode,
    RuntimeHostError, RuntimeHostResult,
};
use crate::ids::InstanceId;
use crate::ordered_map::OrderedMap;
use crate::text::same_text;

verus! {

/// Which host-scheduled package a run is: the typed admission codes and the failure record
/// category depend on it.
#[derive(Debug, Clone, Copy, PartialEq, Eq, Structural)]
pub enum HostPackageRun {
    /// The instance's startup package.
    StartupPackage,
    /// A failed run's bound recovery package, run standalone by the stuck-recovery ladder.
    ReturnHome,
}

impl HostPackageRun {
    pub fn adb_not_ready_code(self) -> (code: &'static str)
        ensures
            code == match self {
                HostPackageRun::StartupPackage => "startup_package_adb_not_ready",
                HostPackageRun::ReturnHome => "recovery_ladder_adb_not_ready",
            },
    {
        match self {
            HostPackageRun::StartupPackage => "startup_package_adb_not_ready",
            HostPackageRun::ReturnHome => "recovery_ladder_adb_not_ready",
        }
    }

    pub fn failure_category(self) -> (category: &'static str)
        ensures
            category == run_category(self),
    {
        match self {
            HostPackageRun::StartupPackage => "startup_package",
            HostPackageRun::ReturnHome => "recovery_ladder",
        }
    }
}

pub open spec fn run_category(run: HostPackageRun) -> &'static str {
    match run {
        HostPackageRun::StartupPackage => "startup_package",
        HostPackageRun::ReturnHome => "recovery_ladder",
    }
}

/// Where an instance's backend comes from.
#[derive(Debug, Clone, Copy, PartialEq, Eq, Structural)]
pub enum ExecutionBackendProvenance {
    PhysicalDevice,
    Fixture,
}

#[derive(Debug, Clone)]
pub struct RegisteredInstance {
    pub instance_id: InstanceId,
    pub instance_alias: String,
    pub provenance: ExecutionBackendProvenance,
}

/// A package by its place and the digest it must have.
#[derive(Debug, Clone)]
pub struct ContainedTaskRequest {
    pub package_path: String,
    pub expected_sha256: String,
}

impl ContainedTaskRequest {
    fn copy(&self) -> (request: Self)
        ensures
            request == *self,
    {
        ContainedTaskRequest {
            package_path: self.package_path.clone(),
            expected_sha256: self.expected_sha256.clone(),
        }
    }
}

/// `index` is the first of the instances with an alias.
pub open spec fn first_with_alias(
    instances: Seq<RegisteredInstance>,
    alias: Seq<char>,
    index: int,
) -> bool {
    &&& 0 <= index < instances.len()
    &&& instances[index].instance_alias@ == alias
    &&& forall|i: int| 0 <= i < index ==> (#[trigger] instances[i]).instance_alias@ != alias
}

/// The position of the first instance with an alias.
pub open spec fn alias_position(instances: Seq<RegisteredInstance>, alias: Seq<char>) -> Option<
    int,
> {
    if exists|index: int| first_with_alias(instances, alias, index) {
        Some(choose|index: int| first_with_alias(instances, alias, index))
    } else {
        None
    }
}

/// The first instance with an alias.
pub fn find_by_alias<'a>(instances: &'a Vec<RegisteredInstance>, alias: &str) -> (found: Option<
    &'a RegisteredInstance,
>)
    ensures
        match alias_position(instances@, alias@) {
            Some(index) => first_with_alias(instances@, alias@, index) && found == Some(
                &instances@[index],
            ),
            None => found is None && forall|i: int|
                0 <= i < instances@.len() ==> (#[trigger] instances@[i]).instance_alias@ != alias@,
        },
{
    let mut index: usize = 0;
    while index < instances.len()
        invariant
            index <= instances.len(),
            forall|i: int|
                0 <= i < index ==> (#[trigger] instances@[i]).instance_alias@ != alias@,
        decreases instances.len() - index,
    {
        if same_text(instances[index].instance_alias.as_str(), alias) {
            proof {
                assert(first_with_alias(instances@, alias@, index as int));
                let chosen = choose|i: int| first_with_alias(instances@, alias@, i);
                assert(chosen == index);
            }
            return Some(&instances[index]);
        }
        index += 1;
    }
    None
}

/// The registered instance a policy settlement's alias names.
pub fn settlement_instance_id(instances: &Vec<RegisteredInstance>, alias: &str) -> (found: Option<
    InstanceId,
>)
    ensures
        found == match alias_position(instances@, alias@) {
            Some(index) => Some(instances@[index].instance_id),
            None => None,
        },
{
    match find_by_alias(instances, alias) {
        Some(instance) => Some(instance.instance_id),
        None => None,
    }
}

/// A startup error of the host.
pub open spec fn startup_error(code: &'static str) -> RuntimeHostError {
    fatal_error(code, "start_runtime_host", RuntimeErrorCode::RuntimeFatal)
}

/// An error about a configured alias, which it names.
pub open spec fn startup_failure(code: &'static str, alias: Seq<char>) -> DetailedErrorView {
    DetailedErrorView {
        native_detail: Some("instance_alias="@ + alias),
        ..plain_error(startup_error(code))
    }
}

fn startup_fault(code: &'static str, alias: &str) -> (error: DetailedError)
    ensures
        error@ == startup_failure(code, alias@),
{
    let mut detail = String::from_str("instance_alias=");
    detail.append(alias);
    DetailedError::plain(
        RuntimeHostError::fatal(code, "start_runtime_host", RuntimeErrorCode::RuntimeFatal),
    ).with_native_detail(detail)
}

/// Why a configured alias cannot have a startup package, if it cannot.
pub open spec fn startup_refusal(instances: Seq<RegisteredInstance>, alias: Seq<char>) -> Option<
    DetailedErrorView,
> {
    match alias_position(instances, alias) {
        None => Some(startup_failure("startup_package_instance_unknown", alias)),
        Some(index) => if instances[index].provenance
            != ExecutionBackendProvenance::PhysicalDevice {
            Some(startup_failure("startup_package_requires_physical_instance", alias))
        } else {
            None
        },
    }
}

/// The packages bound to instances by the first entries of a configuration;
/// the error of the first entry that cannot be bound.
pub open spec fn bound_packages(
    configured: Seq<(String, ContainedTaskRequest)>,
    instances: Seq<RegisteredInstance>,
) -> Result<Map<InstanceId, ContainedTaskRequest>, DetailedErrorView>
    decreases configured.len(),
{
    if configured.len() == 0 {
        Ok(Map::empty())
    } else {
        match bound_packages(configured.drop_last(), instances) {
            Err(error) => Err(error),
            Ok(bound) => {
                let (alias, request) = configured.last();
                match startup_refusal(instances, alias@) {
                    Some(error) => Err(error),
                    None => Ok(
                        bound.insert(
                            instances[alias_position(instances, alias@)->0].instance_id,
                            request,
                        ),
                    ),
                }
            },
        }
    }
}

/// Binds the configured startup packages to registered physical instances at startup. An
/// alias that is not registered fails with `startup_package_instance_unknown`; a fixture
/// instance with `startup_package_requires_physical_instance`. `instances` is in the order
/// of their identifiers.
pub fn resolve_startup_packages(
    configured: &OrderedMap<String, ContainedTaskRequest>,
    instances: &Vec<RegisteredInstance>,
) -> (result: Result<OrderedMap<InstanceId, ContainedTaskRequest>, DetailedError>)
    ensures
        match bound_packages(configured.entries@, instances@) {
            Err(error) => result matches Err(actual) && actual@ == error,
            Ok(bound) => result matches Ok(resolved) && resolved.wf() && resolved@ == bound,
        },
{
    let mut resolved: OrderedMap<InstanceId, ContainedTaskRequest> = OrderedMap::new();
    let mut index: usize = 0;
    assert(configured.entries@.take(0) =~= Seq::empty());
    while index < configured.entries.len()
        invariant
            index <= configured.entries.len(),
            resolved.wf(),
            bound_packages(configured.entries@.take(index as int), instances@) == Ok::<
                Map<InstanceId, ContainedTaskRequest>,
                DetailedErrorView,
            >(resolved@),
        decreases configured.entries.len() - index,
    {
        let entry = &configured.entries[index];
        proof {
            let taken = configured.entries@.take(index + 1);
            assert(taken.drop_last() =~= configured.entries@.take(index as int));
            assert(taken.last() == configured.entries@[index as int]);
            if bound_packages(taken, instances@) is Err {
                lemma_refusal_stays(configured.entries@, instances@, index + 1);
            }
        }
        match find_by_alias(instances, entry.0.as_str()) {
            None => {
                return Err(startup_fault("startup_package_instance_unknown", entry.0.as_str()));
            },
            Some(instance) => {
                if instance.provenance != ExecutionBackendProvenance::PhysicalDevice {
                    return Err(
                        startup_fault(
                            "startup_package_requires_physical_instance",
                            entry.0.as_str(),
                        ),
                    );
                }
                resolved.insert(instance.instance_id, entry.1.copy());
            },
        }
        index += 1;
    }
    assert(configured.entries@.take(configured.entries@.len() as int) =~= configured.entries@);
    Ok(resolved)
}

proof fn lemma_refusal_stays(
    configured: Seq<(String, ContainedTaskRequest)>,
    instances: Seq<RegisteredInstance>,
    count: int,
)
    requires
        0 <= count <= configured.len(),
        bound_packages(configured.take(count), instances) is Err,
    ensures
        bound_packages(configured, instances) == bound_packages(
            configured.take(count),
            instances,
        ),
    decreases configured.len() - count,
{
    if count == configured.len() {
        assert(configured.take(count) =~= configured);
    } else {
        assert(configured.take(count + 1).drop_last() =~= configured.take(count));
        lemma_refusal_stays(configured, instances, count + 1);
    }
}

/// What became of a startup package after an instance was started.
#[derive(Debug, Clone, Copy, PartialEq, Eq, Structural)]
pub enum StartupPackageDisposition {
    NotConfigured,
    Scheduled,
}

/// The package to schedule for an instance, if one is configured.
pub fn startup_package_for(
    packages: &OrderedMap<InstanceId, ContainedTaskRequest>,
    instance_id: InstanceId,
) -> (result: (StartupPackageDisposition, Option<ContainedTaskRequest>))
    requires
        packages.wf(),
    ensures
        packages@.contains_key(instance_id) ==> result == (
            StartupPackageDisposition::Scheduled,
            Some(packages@[instance_id]),
        ),
        !packages@.contains_key(instance_id) ==> result == (
            StartupPackageDisposition::NotConfigured,
            None::<ContainedTaskRequest>,
        ),
{
    match packages.get(&instance_id) {
        Some(request) => (StartupPackageDisposition::Scheduled, Some(request.copy())),
        None => (StartupPackageDisposition::NotConfigured, None),
    }
}

/// How a package run that did not complete is recorded.
#[derive(Debug, Clone, Copy)]
pub enum PackageFailureRecord {
    /// The ledger itself failed: nothing can be recorded.
    Propagate,
    /// The failure has an event already; only the lifecycle record follows.
    LifecycleOnly,
    /// A failure event of its own.
    Event { fatal_severity: bool, category: &'static str },
}

pub open spec fn package_failure_record(
    run: HostPackageRun,
    error: RuntimeHostError,
    recorded: bool,
) -> PackageFailureRecord {
    if error.projection == RuntimeErrorCode::LedgerFailure {
        PackageFailureRecord::Propagate
    } else if recorded {
        PackageFailureRecord::LifecycleOnly
    } else {
        PackageFailureRecord::Event { fatal_severity: error.fatal, category: run_category(run) }
    }
}

pub fn plan_package_failure_record(
    run: HostPackageRun,
    error: &RuntimeHostError,
    recorded: bool,
) -> (plan: PackageFailureRecord)
    ensures
        plan == package_failure_record(run, *error, recorded),
{
    if error.projection == RuntimeErrorCode::LedgerFailure {
        PackageFailureRecord::Propagate
    } else if recorded {
        PackageFailureRecord::LifecycleOnly
    } else {
        PackageFailureRecord::Event {
            fatal_severity: error.is_fatal(),
            category: run.failure_category(),
        }
    }
}

/// The detail of a failure event: the error, whether it stops the host, and
/// the instance.
pub fn package_failure_detail(error: &RuntimeHostError, instance_alias: &str) -> (detail: String)
    ensures
        detail@ == "host_code="@ + error.code@ + " fatal="@ + (if error.fatal {
            "true"@
        } else {
            "false"@
        }) + " instance_alias="@ + instance_alias@,
{
    let mut detail = String::from_str("host_code=");
    detail.append(error.code);
    detail.append(" fatal=");
    if error.fatal {
        detail.append("true");
    } else {
        detail.append("false");
    }
    detail.append(" instance_alias=");
    detail.append(instance_alias);
    detail
}

/// What a recorded failure means for the scheduling thread: the code of a
/// refusal it survives, or the error that stops the host.
pub fn settle_package_failure(error: RuntimeHostError, poison_runtime: bool) -> (result:
    RuntimeHostResult<&'static str>)
    ensures
        poison_runtime || error.fatal ==> result == Err::<&'static str, _>(error),
        !(poison_runtime || error.fatal) ==> result == Ok::<_, RuntimeHostError>(error.code),
{
    if poison_runtime || error.is_fatal() {
        Err(error)
    } else {
        Ok(error.code())
    }
}

/// An alias stands for the first instance that carries it, and for none when
/// no instance does.
pub proof fn law_alias_stands_for_the_first(
    instances: Seq<RegisteredInstance>,
    alias: Seq<char>,
    index: int,
)
    requires
        0 <= index < instances.len(),
        instances[index].instance_alias@ == alias,
    ensures
        alias_position(instances, alias) matches Some(first) && 0 <= first <= index
            && instances[first].instance_alias@ == alias,
        (forall|i: int|
            0 <= i < index ==> (#[trigger] instances[i]).instance_alias@ != alias)
            ==> alias_position(instances, alias) == Some(index),
    decreases index,
{
    if exists|i: int| 0 <= i < index && (#[trigger] instances[i]).instance_alias@ == alias {
        let earlier = choose|i: int|
            0 <= i < index && (#[trigger] instances[i]).instance_alias@ == alias;
        law_alias_stands_for_the_first(instances, alias, earlier);
    } else {
        assert(first_with_alias(instances, alias, index));
        let first = alias_position(instances, alias)->0;
        assert(first_with_alias(instances, alias, first));
        if first < index {
            assert(instances[first].instance_alias@ == alias);
        }
        if first > index {
            assert(instances[index].instance_alias@ != alias);
        }
    }
}

/// A startup package is refused exactly when its alias is unknown or stands
/// for something other than a physical device, and the refusal names which.
pub proof fn law_startup_needs_a_physical_device(
    instances: Seq<RegisteredInstance>,
    alias: Seq<char>,
)
    ensures
        (forall|i: int|
            0 <= i < instances.len() ==> (#[trigger] instances[i]).instance_alias@ != alias)
            ==> startup_refusal(instances, alias) == Some(
            startup_failure("startup_package_instance_unknown", alias),
        ),
        startup_refusal(instances, alias) is None ==> exists|i: int|
            0 <= i < instances.len() && (#[trigger] instances[i]).instance_alias@ == alias
                && instances[i].provenance == ExecutionBackendProvenance::PhysicalDevice,
        (exists|i: int|
            0 <= i < instances.len() && (#[trigger] instances[i]).instance_alias@ == alias) && (
        forall|i: int|
            0 <= i < instances.len() && (#[trigger] instances[i]).instance_alias@ == alias
                ==> instances[i].provenance == ExecutionBackendProvenance::PhysicalDevice)
            ==> startup_refusal(instances, alias) is None,
        (exists|i: int|
            0 <= i < instances.len() && (#[trigger] instances[i]).instance_alias@ == alias) && (
        forall|i: int|
            0 <= i < instances.len() && (#[trigger] instances[i]).instance_alias@ == alias
                ==> instances[i].provenance == ExecutionBackendProvenance::Fixture)
            ==> startup_refusal(instances, alias) == Some(
            startup_failure("startup_package_requires_physical_instance", alias),
        ),
{
    if exists|i: int|
        0 <= i < instances.len() && (#[trigger] instances[i]).instance_alias@ == alias {
        let found = choose|i: int|
            0 <= i < instances.len() && (#[trigger] instances[i]).instance_alias@ == alias;
        law_alias_stands_for_the_first(instances, alias, found);
        let first = alias_position(instances, alias)->0;
        assert(instances[first].instance_alias@ == alias);
    } else {
        if exists|index: int| first_with_alias(instances, alias, index) {
            let index = choose|index: int| first_with_alias(instances, alias, index);
            assert(instances[index].instance_alias@ == alias);
        }
    }
}

/// Packages are bound only when every one of their aliases is accepted, and
/// then each instance that an alias stands for has a package.
pub proof fn law_packages_are_bound_together(
    configured: Seq<(String, ContainedTaskRequest)>,
    instances: Seq<RegisteredInstance>,
    index: int,
)
    requires
        0 <= index < configured.len(),
    ensures
        bound_packages(configured, instances) matches Ok(bound) ==> startup_refusal(
            instances,
            configured[index].0@,
        ) is None && bound.contains_key(
            instances[alias_position(instances, configured[index].0@)->0].instance_id,
        ),
        bound_packages(configured, instances) matches Ok(bound) ==> bound[instances[alias_position(
            instances,
            configured.last().0@,
        )->0].instance_id] == configured.last().1,
    decreases configured.len(),
{
    if index < configured.len() - 1 {
        law_packages_are_bound_together(configured.drop_last(), instances, index);
        assert(configured.drop_last()[index] == configured[index]);
    }
}

/// A failed package stops the host's start only for its ledger; otherwise it is
/// told once, and as severely as it is.
pub proof fn law_package_failure_is_told_once(
    run: HostPackageRun,
    error: RuntimeHostError,
    recorded: bool,
)
    ensures
        package_failure_record(run, error, recorded) == PackageFailureRecord::Propagate
            <==> error.projection == RuntimeErrorCode::LedgerFailure,
        package_failure_record(run, error, true) !is Event,
        error.projection != RuntimeErrorCode::LedgerFailure ==> package_failure_record(
            run,
            error,
            true,
        ) == PackageFailureRecord::LifecycleOnly,
        error.projection != RuntimeErrorCode::LedgerFailure ==> (package_failure_record(
            run,
            error,
            false,
        ) matches PackageFailureRecord::Event { fatal_severity, category } && fatal_severity
            == error.fatal && category == (if run == HostPackageRun::StartupPackage {
            "startup_package"
        } else {
            "recovery_ladder"
        })),
{
}

} // verus!
