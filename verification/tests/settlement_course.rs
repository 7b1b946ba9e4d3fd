//! The facts of settlements, recorded from the first to the last.

use runtime_host::error::{DetailedError, RuntimeErrorCode, RuntimeHostError};
use runtime_host::fact_producers::PolicySettlement;
use runtime_host::settlement_course::{
    SettlementAction, SettlementCourse, SettlementProgress, SettlementReply,
};

fn settlement(alias: &str, duration_ms: u64) -> PolicySettlement {
    PolicySettlement {
        instance_alias: alias.to_owned(),
        catalog_task_id: "daily".to_owned(),
        duration_ms,
        succeeded: true,
        failure_streak: 0,
        completed_at_unix_ms: 5,
    }
}

struct Run {
    trace: Vec<SettlementAction>,
    keys: Vec<String>,
    end: Result<(), DetailedError>,
}

fn run(course: SettlementCourse, refuse: Option<&str>) -> Run {
    let mut course = course;
    let mut trace = Vec::new();
    let mut keys = Vec::new();
    loop {
        trace.push(course.action);
        let reply = match course.action {
            SettlementAction::AskInstance | SettlementAction::FindInstance => {
                let alias = course.settlements[course.at].instance_alias.as_str();
                SettlementReply::Instance(if alias == "alpha" { Some(3) } else { None })
            }
            SettlementAction::Record => {
                let key = course.records[course.position].key.clone();
                let refused = refuse == Some(key.as_str());
                keys.push(key);
                if refused {
                    SettlementReply::Failed(
                        DetailedError::plain(RuntimeHostError::request(
                            "runtime_fact_stale",
                            "record_runtime_fact",
                            RuntimeErrorCode::InvalidRequest,
                        ))
                        .with_native_detail("older".to_owned()),
                    )
                } else {
                    SettlementReply::Done
                }
            }
            SettlementAction::MarkFatal => SettlementReply::Done,
        };
        match course.advance(reply) {
            SettlementProgress::Next(next) => course = next,
            SettlementProgress::End(end) => return Run { trace, keys, end },
        }
    }
}

#[test]
fn a_settlement_is_recorded_as_four_facts() {
    let run = run(SettlementCourse::after_run(settlement("alpha", 9)), None);
    run.end.expect("recorded");
    assert_eq!(
        run.keys,
        [
            "task.daily.last_duration_ms",
            "task.daily.last_outcome",
            "task.daily.failure_streak",
            "task.daily.completed_at_unix_ms",
        ]
    );
    assert_eq!(run.trace[0], SettlementAction::FindInstance);
}

#[test]
fn a_refused_settlement_fact_stops_the_host() {
    let refused =
        run(SettlementCourse::after_run(settlement("alpha", 9)), Some("task.daily.last_outcome"));
    assert_eq!(refused.keys.len(), 2);
    assert_eq!(refused.trace.last(), Some(&SettlementAction::MarkFatal));
    let error = refused.end.expect_err("refused");
    assert!(error.is_fatal());
    assert_eq!(error.code(), "runtime_fact_stale");
    assert_eq!(error.native_detail.as_deref(), Some("older"));
    let unknown = run(SettlementCourse::after_run(settlement("beta", 9)), None);
    assert_eq!(
        unknown.end.expect_err("unknown").code(),
        "policy_settlement_instance_unknown"
    );
    let long = run(SettlementCourse::after_run(settlement("alpha", u64::MAX)), None);
    assert_eq!(long.end.expect_err("too long").code(), "policy_settlement_fact_overflow");
}

#[test]
fn a_start_records_the_settlements_of_registered_instances() {
    let all = vec![settlement("beta", 1), settlement("alpha", 2), settlement("gamma", 3)];
    let run = run(SettlementCourse::on_start(all).expect("some"), None);
    run.end.expect("recorded");
    assert_eq!(run.keys.len(), 4);
    assert_eq!(
        run.trace[..3],
        [
            SettlementAction::AskInstance,
            SettlementAction::AskInstance,
            SettlementAction::FindInstance,
        ]
    );
    assert!(SettlementCourse::on_start(Vec::new()).is_none());
}
