//! Evidence for maintenance.

use runtime_host::planning::{
    collect_maintenance_evidence, FactScope, MaintenanceEvent, MaintenanceLedgerQuery,
    MaintenancePayload, MaintenanceTrendPolicy,
};

fn scope() -> FactScope {
    FactScope::Server { server_id: "server-1".to_owned() }
}

fn query() -> MaintenanceLedgerQuery {
    MaintenanceLedgerQuery::new(
        "instance-a".to_owned(),
        "task-a".to_owned(),
        scope(),
        "fact.k".to_owned(),
        1_000,
        MaintenanceTrendPolicy { lookback_ms: 400 },
        true,
    )
    .expect("query")
}

fn executed(sequence: u64, at: u64, task: &str) -> MaintenanceEvent {
    MaintenanceEvent {
        sequence,
        payload: MaintenancePayload::ExecutionRecorded {
            instance_id: "instance-a".to_owned(),
            task_id: task.to_owned(),
            observed_at_unix_ms: at,
            runtime_ms: at / 10,
        },
    }
}

fn published(sequence: u64, at: u64, key: &str) -> MaintenanceEvent {
    MaintenanceEvent {
        sequence,
        payload: MaintenancePayload::FactPublished {
            scope: scope(),
            key: key.to_owned(),
            observed_at_unix_ms: at,
            confidence_milli: 900,
        },
    }
}

#[test]
fn a_subject_is_named_after_the_digest_of_its_framed_parts() {
    assert_eq!(
        query().subject_id(),
        "maintenance:cad1cdcb1099db9c86edfab8aa8cc691e666131af85389bcdcb990852063062b"
    );
}

#[test]
fn evidence_is_what_the_window_holds_of_the_subject() {
    let events = vec![
        executed(1, 599, "task-a"),
        executed(2, 600, "task-a"),
        executed(3, 700, "task-b"),
        published(4, 800, "fact.k"),
        published(5, 900, "fact.other"),
        executed(6, 1_000, "task-a"),
        executed(7, 1_001, "task-a"),
    ];
    let evidence = collect_maintenance_evidence(&events, &query(), 2).expect("evidence");
    assert_eq!(
        evidence.durations.iter().map(|duration| duration.ledger_sequence).collect::<Vec<_>>(),
        [2, 6]
    );
    assert_eq!(evidence.durations[1].duration_ms, 100);
    assert_eq!(evidence.confidences.len(), 1);
    assert_eq!(evidence.confidences[0].confidence_milli, 900);
    assert_eq!(
        collect_maintenance_evidence(&events, &query(), 1).expect_err("too many").code(),
        "maintenance_evidence_capacity_exceeded"
    );
}

#[test]
fn a_query_is_checked() {
    let code = |instance: &str, scope: FactScope, at: u64, well_formed: bool| {
        MaintenanceLedgerQuery::new(
            instance.to_owned(),
            "task-a".to_owned(),
            scope,
            "fact.k".to_owned(),
            at,
            MaintenanceTrendPolicy { lookback_ms: 1 },
            well_formed,
        )
        .err()
        .map(|error| error.code())
    };
    let invalid = Some("maintenance_ledger_query_invalid");
    assert_eq!(code("instance-a", scope(), 1, true), None);
    assert_eq!(code("", scope(), 1, true), invalid);
    assert_eq!(code("a\u{7}", scope(), 1, true), invalid);
    assert_eq!(code(&"x".repeat(513), scope(), 1, true), invalid);
    assert_eq!(code("instance-a", scope(), 0, true), invalid);
    assert_eq!(code("instance-a", scope(), 1, false), invalid);
    let other = FactScope::Instance { instance_id: "instance-b".to_owned() };
    assert_eq!(code("instance-a", other, 1, true), invalid);
}
