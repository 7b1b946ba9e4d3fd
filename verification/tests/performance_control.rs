//! The balance controller on concrete observations.

use runtime_host::period::Period;
use runtime_host::performance_control::{
    HostResourceSnapshot, LoadProfile, PerformanceBalanceController, PerformanceControlConfig,
    PerformanceControlLevel, PerformanceControlObservation, PerformanceControlReason,
    PerformanceControlWorkload, PerformanceDeadlineDisposition, PerformanceDispatchGate,
};

fn observation(
    at: u64,
    responsiveness: Option<u16>,
    third_party: Option<u16>,
) -> PerformanceControlObservation {
    PerformanceControlObservation {
        observed_at_unix_ms: at,
        host_responsiveness_basis_points: responsiveness,
        third_party_pressure_basis_points: third_party,
        foreground_fullscreen: false,
    }
}

fn workload(instance_id: &str, load_profile: LoadProfile) -> PerformanceControlWorkload {
    PerformanceControlWorkload { instance_id: instance_id.to_owned(), load_profile }
}

#[test]
fn escalation_is_bounded_by_hysteresis_and_cooldown() {
    let mut controller =
        PerformanceBalanceController::new(PerformanceControlConfig::default()).expect("new");
    let workloads = vec![workload("instance-a", LoadProfile::Heavy)];
    assert!(controller
        .observe(observation(1_000, Some(5_000), Some(0)), &workloads)
        .expect("first")
        .is_empty());
    let events = controller
        .observe(observation(3_000, Some(5_000), Some(0)), &workloads)
        .expect("second");
    assert_eq!(events.len(), 1);
    assert_eq!(events[0].level, PerformanceControlLevel::DispatchPaused);
    assert!(controller
        .observe(observation(4_000, Some(5_000), Some(0)), &workloads)
        .expect("cooldown")
        .is_empty());
}

#[test]
fn third_party_contention_is_independent_and_presence_alone_is_not_pressure() {
    let mut controller =
        PerformanceBalanceController::new(PerformanceControlConfig::default()).expect("new");
    assert!(controller
        .observe(observation(1_000, None, Some(0)), &Vec::new())
        .expect("idle")
        .is_empty());
    controller
        .observe(observation(3_000, None, Some(8_000)), &Vec::new())
        .expect("first pressure");
    let events = controller
        .observe(observation(5_000, None, Some(8_000)), &Vec::new())
        .expect("second pressure");
    assert_eq!(events[0].reason, PerformanceControlReason::ThirdPartyContention);
}

#[test]
fn recovery_releases_only_one_instance_per_transition() {
    let config = PerformanceControlConfig {
        transition_cooldown: Period::from_millis(1),
        escalation_samples: 1,
        recovery_samples: 1,
        ..PerformanceControlConfig::default()
    };
    let mut controller = PerformanceBalanceController::new(config).expect("new");
    let workloads = vec![
        workload("instance-a", LoadProfile::Heavy),
        workload("instance-b", LoadProfile::Heavy),
    ];
    controller
        .observe(observation(1_000, Some(5_000), Some(0)), &workloads)
        .expect("escalate");
    controller
        .observe(observation(1_002, Some(5_000), Some(0)), &workloads)
        .expect("escalate again");
    let events = controller
        .observe(observation(1_004, Some(10_000), Some(0)), &workloads)
        .expect("recover");
    assert_eq!(events.iter().filter(|event| event.instance_id.is_some()).count(), 1);
    let levels = [
        controller.directive("instance-a").expect("a").level,
        controller.directive("instance-b").expect("b").level,
    ];
    assert_ne!(levels[0], levels[1]);
}

#[test]
fn clock_jump_preserves_control_state_and_resets_transition_evidence() {
    let config =
        PerformanceControlConfig { escalation_samples: 1, ..PerformanceControlConfig::default() };
    let mut controller = PerformanceBalanceController::new(config).expect("new");
    controller
        .observe(observation(1_000, Some(5_000), Some(0)), &Vec::new())
        .expect("escalate");
    let level = controller.level;
    let events = controller
        .observe(observation(100_000, Some(10_000), Some(0)), &Vec::new())
        .expect("clock jump");
    assert_eq!(controller.level, level);
    assert_eq!(events[0].reason, PerformanceControlReason::ClockJump);
}

#[test]
fn deadline_conflict_never_crosses_the_dispatch_gate() {
    let config =
        PerformanceControlConfig { escalation_samples: 1, ..PerformanceControlConfig::default() };
    let mut controller = PerformanceBalanceController::new(config).expect("new");
    controller
        .observe(observation(1_000, Some(7_000), Some(0)), &Vec::new())
        .expect("pressure");
    let PerformanceDispatchGate::Deferred { deadline_disposition, event, .. } =
        controller.gate_dispatch("instance-a", 1_000, 1_001).expect("gate")
    else {
        panic!("deadline must not bypass contention");
    };
    assert_eq!(deadline_disposition, Some(PerformanceDeadlineDisposition::CapacityFailure));
    assert_eq!(
        event.expect("deadline event").reason,
        PerformanceControlReason::DeadlineConflict
    );
}

#[test]
fn resource_overlay_caps_heavy_concurrency_and_scales_budgets() {
    let config =
        PerformanceControlConfig { escalation_samples: 1, ..PerformanceControlConfig::default() };
    let mut controller = PerformanceBalanceController::new(config).expect("new");
    controller
        .observe(observation(1_000, Some(6_000), Some(0)), &Vec::new())
        .expect("pressure");
    controller
        .observe(observation(6_000, Some(6_000), Some(0)), &Vec::new())
        .expect("pressure two");
    let mut resources = vec![HostResourceSnapshot {
        host_id: "host-a".to_owned(),
        cpu_available_milli: 1_000,
        gpu_available_milli: 1_000,
        io_available_milli: 1_000,
        host_responsiveness_basis_points: 10_000,
        third_party_pressure_basis_points: 0,
        heavy_dispatch_limit: 2,
        active_heavy_dispatches: 0,
    }];
    controller
        .apply_to_resources(&mut resources, &vec![workload("instance-a", LoadProfile::Heavy)])
        .expect("overlay");
    assert_eq!(resources[0].heavy_dispatch_limit, 1);
    assert_eq!(resources[0].active_heavy_dispatches, 1);
    assert!(resources[0].cpu_available_milli < 1_000);
}

#[test]
fn invalid_inputs_of_the_controller_are_refused() {
    let config = PerformanceControlConfig::default();
    assert_eq!(
        PerformanceBalanceController::new(config.with_hysteresis(0, 1, Period::from_millis(1)))
            .err()
            .expect("no samples")
            .code(),
        "performance_control_config_invalid"
    );
    let mut controller = PerformanceBalanceController::new(config).expect("new");
    assert_eq!(
        controller
            .observe(observation(0, None, None), &Vec::new())
            .expect_err("no time")
            .code(),
        "performance_control_observation_invalid"
    );
    assert_eq!(
        controller.gate_dispatch("instance-a", 1_001, 1).expect_err("urgency").code(),
        "performance_dispatch_gate_invalid"
    );
    assert_eq!(
        controller.directive("").expect_err("no instance").code(),
        "performance_control_instance_invalid"
    );
}

#[test]
fn periods_shorter_than_a_millisecond_count() {
    let config = PerformanceControlConfig::default();
    let short = Period::from_nanos(1);
    config.with_hysteresis(1, 1, short).validate().expect("a nanosecond is a period");
    assert!(config.with_hysteresis(1, 1, Period::from_nanos(0)).validate().is_err());
    let cooldown = Period::from_nanos(30_000_000_001);
    assert!(config.with_hysteresis(1, 1, cooldown).validate().is_err());
    let same = Period::from_nanos(30_000_000_001);
    config
        .with_hysteresis(1, 1, cooldown)
        .with_clock_jump_threshold(same)
        .validate()
        .expect("as long as the cooldown");
    config
        .with_heavy_dispatch_limits(3, 2)
        .validate()
        .expect("limits");
}

#[test]
fn a_threshold_that_cannot_be_told_stops_the_second_observation() {
    let forever = Period::from_nanos(u128::from(u64::MAX) * 2_000_000);
    let config = PerformanceControlConfig::default().with_clock_jump_threshold(forever);
    let mut controller = PerformanceBalanceController::new(config).expect("controller");
    let calm = |at: u64| PerformanceControlObservation {
        observed_at_unix_ms: at,
        host_responsiveness_basis_points: Some(10_000),
        third_party_pressure_basis_points: Some(0),
        foreground_fullscreen: false,
    };
    controller.observe(calm(1_000), &Vec::new()).expect("first");
    assert_eq!(
        controller.observe(calm(2_000), &Vec::new()).err().expect("no threshold").code(),
        "performance_control_duration_overflow"
    );
}

#[test]
fn workloads_join_up_to_the_first_that_is_invalid() {
    let config = PerformanceControlConfig::default();
    let names = |controller: &PerformanceBalanceController| {
        controller
            .instance_levels
            .entries
            .iter()
            .map(|(name, _)| name.clone())
            .collect::<Vec<_>>()
    };
    let refused = |ids: [&str; 4]| {
        let mut controller = PerformanceBalanceController::new(config).expect("new");
        let workloads =
            ids.iter().map(|id| workload(id, LoadProfile::Heavy)).collect::<Vec<_>>();
        let error = controller
            .observe(observation(1_000, Some(10_000), Some(0)), &workloads)
            .expect_err("invalid");
        assert_eq!(error.code(), "performance_control_workload_invalid");
        names(&controller)
    };
    assert_eq!(refused(["b", "a", "", "c"]), ["a", "b"]);
    assert_eq!(refused(["b", "b", "c", "d"]), ["b"]);
    assert!(refused(["", "a", "b", "c"]).is_empty());
}

#[test]
fn an_instance_recovers_one_step_and_not_below_the_host() {
    let config = PerformanceControlConfig {
        escalation_samples: 1,
        recovery_samples: 1,
        ..PerformanceControlConfig::default()
    };
    let mut controller = PerformanceBalanceController::new(config).expect("new");
    let workloads = vec![workload("a", LoadProfile::Heavy), workload("b", LoadProfile::Heavy)];
    let mut time = 1_000;
    for responsiveness in [0, 0, 0, 10_000, 10_000, 10_000, 10_000, 10_000, 10_000] {
        let before = controller.instance_levels.entries.clone();
        controller
            .observe(observation(time, Some(responsiveness), Some(0)), &workloads)
            .expect("observed");
        let after = &controller.instance_levels.entries;
        let mut fallen = 0;
        for (_, level) in after {
            assert!(level.rank() >= controller.level.rank());
        }
        for ((_, earlier), (_, later)) in before.iter().zip(after) {
            if later.rank() < earlier.rank() {
                assert_eq!(later.rank() + 1, earlier.rank());
                fallen += 1;
            }
        }
        assert!(fallen <= 1);
        time += 6_000;
    }
}
