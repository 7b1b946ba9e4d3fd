//! Writing the runtime's facts.

use runtime_host::error::{RuntimeErrorCode, RuntimeHostError};
use runtime_host::fact_write::{
    FactJob, FactWrite, FactWriteAction, FactWriteFailure, FactWriteOutcome, FactWriteProgress,
    FactWriteReply,
};
use runtime_host::runtime_facts::{
    FactValue, OriginModule, RuntimeFactChange, RuntimeFactInvalidationReason, RuntimeFactRecord,
    RuntimeFactScope, RuntimeFactStore,
};

const SCOPE: RuntimeFactScope = RuntimeFactScope::Instance { instance_id: 4 };

fn fact(key: &str, value: i64, at: u64) -> RuntimeFactRecord {
    RuntimeFactRecord {
        scope: SCOPE,
        key: key.to_owned(),
        value: FactValue::Integer(value),
        observed_at_unix_ms: at,
        source: OriginModule::Runtime,
        ttl_ms: None,
    }
}

fn record(key: &str, value: i64, at: u64) -> FactJob {
    FactJob::Record { record: fact(key, value, at) }
}

fn invalidate(key: &str) -> FactJob {
    FactJob::Invalidate {
        scope: SCOPE,
        key: key.to_owned(),
        reason: RuntimeFactInvalidationReason::DeviceClosed,
    }
}

fn usual(action: FactWriteAction) -> FactWriteReply {
    match action {
        FactWriteAction::ReadPosition => FactWriteReply::Position(9),
        FactWriteAction::ReadClock => FactWriteReply::Time { unix_ms: 77 },
        FactWriteAction::Validate => FactWriteReply::Validity(Ok(())),
        FactWriteAction::FindInstance => FactWriteReply::Found(true),
        _ => FactWriteReply::Done,
    }
}

struct Host {
    store: RuntimeFactStore,
    dirty: bool,
}

impl Host {
    fn new() -> Self {
        Host { store: RuntimeFactStore::new(2), dirty: false }
    }

    fn write(
        &mut self,
        job: FactJob,
        reply: impl Fn(FactWriteAction) -> FactWriteReply,
    ) -> (Vec<FactWriteAction>, Result<FactWriteOutcome, FactWriteFailure>) {
        let mut write = FactWrite::new(job);
        let mut trace = Vec::new();
        loop {
            let action = write.action;
            trace.push(action);
            match write.advance(&mut self.store, &mut self.dirty, reply(action)) {
                FactWriteProgress::Next(next) => write = next,
                FactWriteProgress::End(end) => return (trace, end),
            }
        }
    }
}

#[test]
fn a_fact_is_appended_before_it_is_held() {
    let mut host = Host::new();
    let (trace, end) = host.write(record("a", 1, 10), usual);
    assert!(matches!(end, Ok(FactWriteOutcome::Recorded(RuntimeFactChange::Inserted))));
    assert_eq!(
        trace,
        vec![
            FactWriteAction::TakeGate,
            FactWriteAction::Validate,
            FactWriteAction::MakeLinks,
            FactWriteAction::FindInstance,
            FactWriteAction::Append,
            FactWriteAction::Synchronize,
        ]
    );
    assert!(host.dirty);
    let error = RuntimeHostError::fatal("ledger", "append", RuntimeErrorCode::LedgerFailure);
    let (trace, end) = host.write(record("b", 1, 10), |action| match action {
        FactWriteAction::Append => FactWriteReply::Failed(error),
        other => usual(other),
    });
    assert_eq!(end.err().expect("not appended").error.code(), "ledger");
    assert_eq!(trace.last(), Some(&FactWriteAction::MarkFatal));
    assert!(host.store.get(SCOPE, "b").is_none());
    let (trace, end) = host.write(record("a", 1, 10), usual);
    assert!(matches!(end, Ok(FactWriteOutcome::Recorded(RuntimeFactChange::Unchanged))));
    assert!(!trace.contains(&FactWriteAction::Append));
}

#[test]
fn what_the_store_refuses_is_not_appended() {
    let mut host = Host::new();
    host.write(record("a", 1, 10), usual).1.expect("first");
    let refused = |host: &mut Host, job: FactJob| {
        let (trace, end) = host.write(job, usual);
        assert!(!trace.contains(&FactWriteAction::Append));
        end.err().expect("refused")
    };
    let stale = refused(&mut host, record("a", 2, 10));
    assert_eq!(stale.error.code(), "runtime_fact_stale");
    assert_eq!(stale.detailed("too old").native_detail.as_deref(), Some("too old"));
    assert_eq!(refused(&mut host, invalidate("b")).error.code(), "runtime_fact_missing");
    host.write(record("b", 1, 10), usual).1.expect("second");
    assert_eq!(
        refused(&mut host, record("c", 1, 10)).error.code(),
        "runtime_fact_capacity_exceeded"
    );
    let (_, end) = host.write(record("a", 3, 30), |action| match action {
        FactWriteAction::Validate => FactWriteReply::Validity(Err("runtime_fact_key_invalid")),
        other => usual(other),
    });
    assert_eq!(end.err().expect("invalid").error.code(), "runtime_fact_key_invalid");
    let (_, end) = host.write(record("a", 3, 30), |action| match action {
        FactWriteAction::FindInstance => FactWriteReply::Found(false),
        other => usual(other),
    });
    assert_eq!(end.err().expect("unknown").error.code(), "runtime_fact_instance_unknown");
}

#[test]
fn a_fact_is_dropped_after_its_event() {
    let mut host = Host::new();
    host.write(record("a", 1, 10), usual).1.expect("recorded");
    let (trace, end) = host.write(invalidate("a"), usual);
    match end {
        Ok(FactWriteOutcome::Invalidated(invalidation)) => {
            assert_eq!(invalidation.key, "a");
            assert_eq!(invalidation.at_unix_ms, 77);
        }
        other => panic!("unexpected end: {other:?}"),
    }
    assert_eq!(trace[1], FactWriteAction::ReadClock);
    assert!(host.store.get(SCOPE, "a").is_none());
}

#[test]
fn a_store_that_changes_under_a_write_stops_the_host() {
    let mut host = Host::new();
    host.write(record("a", 1, 10), usual).1.expect("recorded");
    let mut write = FactWrite::new(invalidate("a"));
    loop {
        let action = write.action;
        if action == FactWriteAction::Append {
            host.store.invalidate(SCOPE, "a").expect("dropped meanwhile");
        }
        match write.advance(&mut host.store, &mut host.dirty, usual(action)) {
            FactWriteProgress::Next(next) => write = next,
            FactWriteProgress::End(end) => {
                let failure = end.err().expect("disagree");
                assert!(failure.appended);
                let detailed = failure.detailed("no such fact");
                assert!(detailed.is_fatal());
                assert_eq!(detailed.code(), "runtime_fact_store_desync");
                assert_eq!(
                    detailed.native_detail.as_deref(),
                    Some("runtime_fact_missing: no such fact")
                );
                return;
            }
        }
    }
}

#[test]
fn only_a_changed_store_is_sealed() {
    let mut host = Host::new();
    let (trace, end) = host.write(FactJob::Snapshot, usual);
    assert!(matches!(end, Ok(FactWriteOutcome::Sealed(false))));
    assert_eq!(trace, vec![FactWriteAction::TakeGate]);
    host.write(record("a", 1, 10), usual).1.expect("recorded");
    let (trace, end) = host.write(FactJob::Snapshot, usual);
    assert!(matches!(end, Ok(FactWriteOutcome::Sealed(true))));
    assert!(!trace.contains(&FactWriteAction::FindInstance));
    assert!(!host.dirty);
    let snapshot = host.store.seal(9, 77);
    assert_eq!((snapshot.ledger_position, snapshot.records.len()), (9, 1));
    let (_, end) = host.write(FactJob::Snapshot, usual);
    assert!(matches!(end, Ok(FactWriteOutcome::Sealed(false))));
    host.dirty = true;
    let (trace, end) = host.write(FactJob::Snapshot, |action| match action {
        FactWriteAction::Validate => FactWriteReply::Validity(Err("runtime_fact_snapshot_large")),
        other => usual(other),
    });
    let failure = end.err().expect("too large");
    assert!(failure.error.is_fatal());
    assert_eq!(trace.last(), Some(&FactWriteAction::MarkFatal));
    assert!(host.dirty);
}
