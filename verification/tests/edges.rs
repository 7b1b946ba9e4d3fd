//! Small decisions at the edges of the host.

use runtime_host::error::{RuntimeErrorCode, RuntimeHostError};
use runtime_host::fact_producers::{
    require_settlement_instance, settle_changed_fact, stored_selfcheck_keys,
};
use runtime_host::ipc::DEFAULT_RUNTIME_MAX_FRAME_BYTES;
use runtime_host::ledger_maintenance::{io_failure, LedgerMaintenanceFailure};
use runtime_host::monitor::monitor_ledger_error;
use runtime_host::ordered_map::OrderedMap;
use runtime_host::owner_unlock::{unlock_record_result, unlock_writer_id};
use runtime_host::performance::monitor::PerformanceMonitor;
use runtime_host::policy::signals::{
    accept_stored_checkpoint, accept_stored_quota, accept_stored_signal, PlanningSignalCheckpoint,
    StoredDetectionQuota, DETECTION_QUOTA_PROJECTION_SCHEMA, PLANNING_SIGNAL_PROJECTION_SCHEMA,
};
use runtime_host::release_state::release_failure_detail;
use runtime_host::resource_close::{
    after_retention, must_retain, AfterRetention, ResourceQuiescence,
};
use runtime_host::runtime_facts::RuntimeFactStore;
use runtime_host::saved_artifact::refusal_detail;
use runtime_host::signatures::signature_ledger_error;
use runtime_host::startup_package::{
    settle_package_failure, settlement_instance_id, startup_package_for, ContainedTaskRequest,
    ExecutionBackendProvenance, HostPackageRun, RegisteredInstance, StartupPackageDisposition,
};

fn refused(code: &'static str) -> RuntimeHostError {
    RuntimeHostError::request(code, "test", RuntimeErrorCode::InvalidRequest)
}

#[test]
fn a_stale_fact_is_no_failure() {
    settle_changed_fact(Err(refused("runtime_fact_stale"))).expect("stale");
    assert_eq!(
        settle_changed_fact(Err(refused("runtime_fact_invalid"))).expect_err("invalid").code(),
        "runtime_fact_invalid"
    );
    assert_eq!(require_settlement_instance(Some(4)).expect("known"), 4);
    assert_eq!(
        require_settlement_instance(None).expect_err("unknown").code(),
        "policy_settlement_instance_unknown"
    );
    assert!(stored_selfcheck_keys(&RuntimeFactStore::new(4), 1).is_empty());
}

#[test]
fn maintenance_failures_keep_the_words_of_their_cause() {
    assert_eq!(
        io_failure("create_restore_target", "kind=NotFound;os=Some(2)").cause,
        "maintenance_io_failed during create_restore_target: kind=NotFound;os=Some(2)"
    );
    let failure = LedgerMaintenanceFailure::from_database(
        "database_busy",
        "backup",
        "the database is busy",
        &vec!["slow disk".to_owned()],
    );
    assert_eq!(failure.cause, "the database is busy");
    assert_eq!(failure.warnings, vec!["slow disk".to_owned()]);
}

#[test]
fn an_unlock_is_recorded_under_its_own_writer() {
    assert_eq!(unlock_writer_id(12, 345), "actingd-unlock-owner-12-345");
    unlock_record_result(Ok(()), Ok(())).expect("recorded");
    let both = unlock_record_result(Err(refused("append")), Err(refused("close")))
        .expect_err("both");
    assert_eq!(both.code(), "append");
    let related = both.related.expect("the close failed too");
    assert_eq!((related.stage, related.error.code()), ("close_unlock_ledger", "close"));
    assert!(unlock_record_result(Err(refused("append")), Ok(()))
        .expect_err("append")
        .related
        .is_none());
    assert_eq!(
        unlock_record_result(Ok(()), Err(refused("close"))).expect_err("close").code(),
        "close"
    );
    let error = monitor_ledger_error("read_monitor_registry");
    assert_eq!(error.code(), "monitor_ledger_failure");
    assert_eq!(DEFAULT_RUNTIME_MAX_FRAME_BYTES, 1024 * 1024);
}

#[test]
fn a_disabled_monitor_takes_no_events() {
    assert!(!PerformanceMonitor::disabled().accepts_pipeline_events());
}

#[test]
fn stored_projections_are_those_that_were_asked_for() {
    assert_eq!(
        accept_stored_signal(None, "s").expect_err("undecodable").code(),
        "policy_planning_signal_projection_invalid"
    );
    let quota = || StoredDetectionQuota {
        schema_version: DETECTION_QUOTA_PROJECTION_SCHEMA.to_owned(),
        instance_id: "i".to_owned(),
        window_id: "w".to_owned(),
        dispatch_used: 2,
        runtime_reserved_ms: 30,
    };
    assert_eq!(accept_stored_quota(Some(quota()), "i", "w").expect("usage").dispatch_used, 2);
    assert_eq!(
        accept_stored_quota(Some(quota()), "i", "x").expect_err("other window").code(),
        "policy_detection_quota_projection_invalid"
    );
    let checkpoint = || PlanningSignalCheckpoint {
        schema_version: PLANNING_SIGNAL_PROJECTION_SCHEMA.to_owned(),
        through_sequence: 9,
    };
    assert_eq!(accept_stored_checkpoint(Some(checkpoint()), 9).expect("checkpoint"), 9);
    assert_eq!(
        accept_stored_checkpoint(Some(checkpoint()), 8).expect_err("other entry").code(),
        "policy_planning_checkpoint_invalid"
    );
}

#[test]
fn rule_refusals_have_their_own_words() {
    assert_eq!(
        refusal_detail("saved_source_is_target"),
        Some("source and target ledger must differ")
    );
    assert_eq!(refusal_detail("saved_source_root_unavailable"), None);
    assert_eq!(release_failure_detail("stale", "disk"), "original=stale; failure=disk");
}

#[test]
fn resources_that_are_not_at_rest_are_retained() {
    assert!(must_retain(Some(ResourceQuiescence::Unconfirmed)));
    assert!(!must_retain(Some(ResourceQuiescence::Confirmed)));
    assert!(!must_retain(None));
    assert!(matches!(after_retention(Ok(true)), AfterRetention::Answer));
    assert!(matches!(after_retention(Ok(false)), AfterRetention::Cleanup));
    assert!(matches!(after_retention(Err(refused("held"))), AfterRetention::Poison(_)));
}

#[test]
fn a_failed_signature_ledger_stops_the_host() {
    let stop = RuntimeHostError::fatal("ledger_down", "test", RuntimeErrorCode::LedgerFailure);
    let failure = signature_ledger_error("signature_unknown", true, stop);
    assert!(failure.poison_runtime);
    assert_eq!(failure.error.code(), "ledger_down");
    let refusal = signature_ledger_error("signature_unknown", false, stop);
    assert!(!refusal.poison_runtime);
    assert_eq!(refusal.error.code(), "signature_unknown");
}

#[test]
fn startup_packages_belong_to_instances() {
    let instances = vec![RegisteredInstance {
        instance_id: 5,
        instance_alias: "node.a".to_owned(),
        provenance: ExecutionBackendProvenance::PhysicalDevice,
    }];
    assert_eq!(settlement_instance_id(&instances, "node.a"), Some(5));
    assert_eq!(settlement_instance_id(&instances, "node.b"), None);
    let mut packages = OrderedMap::new();
    packages.insert(
        5,
        ContainedTaskRequest { package_path: "p".to_owned(), expected_sha256: "h".to_owned() },
    );
    let (disposition, package) = startup_package_for(&packages, 5);
    assert!(matches!(disposition, StartupPackageDisposition::Scheduled));
    assert_eq!(package.expect("package").package_path, "p");
    let (disposition, package) = startup_package_for(&packages, 6);
    assert!(matches!(disposition, StartupPackageDisposition::NotConfigured));
    assert!(package.is_none());
    assert_eq!(HostPackageRun::ReturnHome.adb_not_ready_code(), "recovery_ladder_adb_not_ready");
    assert_eq!(settle_package_failure(refused("adb"), false).expect("refused"), "adb");
    assert_eq!(settle_package_failure(refused("adb"), true).expect_err("poison").code(), "adb");
}
