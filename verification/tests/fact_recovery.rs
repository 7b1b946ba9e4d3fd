//! The recovery of the runtime's facts from its first step to its last.

use runtime_host::error::{RuntimeErrorCode, RuntimeHostError};
use runtime_host::fact_recovery::{
    FactRecovery, FactRecoveryAction, FactRecoveryFailure, FactRecoveryProgress, FactRecoveryReply,
};
use runtime_host::runtime_facts::{
    FactEvent, FactEventPayload, FactValue, OriginModule, RuntimeFactRecord, RuntimeFactScope,
    RuntimeFactStore,
};

fn recorded(sequence: u64, instance_id: u128, key: &str) -> FactEvent {
    FactEvent {
        sequence,
        payload: FactEventPayload::Recorded {
            record: RuntimeFactRecord {
                scope: RuntimeFactScope::Instance { instance_id },
                key: key.to_owned(),
                value: FactValue::Integer(1),
                observed_at_unix_ms: 10,
                source: OriginModule::Runtime,
                ttl_ms: None,
            },
        },
        validity: Ok(()),
    }
}

struct Run {
    actions: Vec<FactRecoveryAction>,
    /// The keys that were appended, with the number of facts then held.
    appended: Vec<(String, usize)>,
    end: Result<(RuntimeFactStore, bool), FactRecoveryFailure>,
}

fn recover(takeover: bool, appends: usize, events: fn() -> Vec<FactEvent>) -> Run {
    let mut recovery = FactRecovery::new(8, takeover, 99);
    let mut actions = Vec::new();
    let mut appended = Vec::new();
    loop {
        actions.push(recovery.action);
        let reply = match recovery.action {
            FactRecoveryAction::ReadSnapshots => FactRecoveryReply::Events(Vec::new()),
            FactRecoveryAction::ReadAppended { .. } => FactRecoveryReply::Events(events()),
            FactRecoveryAction::MakeLinks { .. } => FactRecoveryReply::Done,
            FactRecoveryAction::Append if appended.len() == appends => {
                FactRecoveryReply::Failed(RuntimeHostError::fatal(
                    "ledger_full",
                    "append",
                    RuntimeErrorCode::LedgerFailure,
                ))
            }
            FactRecoveryAction::Append => {
                let invalidation = &recovery.invalidations[recovery.position];
                assert_eq!(invalidation.at_unix_ms, 99);
                appended.push((invalidation.key.clone(), recovery.store.snapshot().len()));
                FactRecoveryReply::Done
            }
        };
        match recovery.advance(reply) {
            FactRecoveryProgress::Next(next) => recovery = next,
            FactRecoveryProgress::End(end) => return Run { actions, appended, end },
        }
    }
}

fn facts() -> Vec<FactEvent> {
    vec![
        recorded(1, 2, "backend.b"),
        recorded(2, 1, "task.page"),
        recorded(3, 1, "device.a"),
        recorded(4, 1, "task.a.last_outcome"),
    ]
}

#[test]
fn a_takeover_appends_what_it_drops_first() {
    let run = recover(true, 9, facts);
    assert_eq!(
        run.actions,
        [
            FactRecoveryAction::ReadSnapshots,
            FactRecoveryAction::ReadAppended { from_sequence: 1 },
            FactRecoveryAction::MakeLinks { instance_id: 1 },
            FactRecoveryAction::Append,
            FactRecoveryAction::Append,
            FactRecoveryAction::MakeLinks { instance_id: 2 },
            FactRecoveryAction::Append,
        ]
    );
    assert_eq!(
        run.appended,
        [("device.a".to_owned(), 4), ("task.page".to_owned(), 4), ("backend.b".to_owned(), 2)]
    );
    let (store, dirty) = run.end.expect("recovered");
    assert!(dirty);
    assert_eq!(store.snapshot().len(), 1);
    assert_eq!(store.snapshot()[0].key, "task.a.last_outcome");
}

#[test]
fn a_restart_without_a_takeover_keeps_every_fact() {
    let run = recover(false, 0, facts);
    assert_eq!(run.actions.len(), 2);
    let (store, dirty) = run.end.expect("recovered");
    assert!(!dirty);
    assert_eq!(store.snapshot().len(), 4);
}

#[test]
fn a_takeover_with_nothing_untrusted_appends_nothing() {
    let run = recover(true, 0, || vec![recorded(4, 1, "task.a.last_outcome")]);
    assert_eq!(run.actions.len(), 2);
    let (store, dirty) = run.end.expect("recovered");
    assert!(!dirty);
    assert_eq!(store.snapshot().len(), 1);
}

#[test]
fn a_recovery_ends_where_the_ledger_fails_it() {
    match recover(true, 1, facts).end.expect_err("ledger") {
        FactRecoveryFailure::Outside(error) => assert_eq!(error.code(), "ledger_full"),
        FactRecoveryFailure::Replay(_) => panic!("nothing was refused"),
    }
    let refused = recover(true, 9, || {
        vec![FactEvent { sequence: 6, payload: FactEventPayload::Other, validity: Ok(()) }]
    });
    match refused.end.expect_err("replay") {
        FactRecoveryFailure::Replay(failure) => assert_eq!(failure.sequence, 6),
        FactRecoveryFailure::Outside(_) => panic!("nothing failed"),
    }
}
