//! The monitor registry on concrete events.

use runtime_host::monitor::{
    check_journal_length, read_legacy_snapshot, records_restore_failure, JournalFile,
    MonitorEvent, MonitorRecord, MonitorRegistry, MonitorUpdate, RuntimeMonitorImport,
    RuntimeMonitorInstanceStatus, RuntimeMonitorPolicy, RuntimeMonitorState, RuntimeStateFact,
    MONITOR_SCHEMA_VERSION,
};
use runtime_host::release_state::{EventOrigin, EventParty};

fn policy(interval_ms: u64, page: &str) -> RuntimeMonitorPolicy {
    RuntimeMonitorPolicy { interval_ms, remainder: page.to_owned() }
}

fn scheduled(now: u64) -> RuntimeMonitorState {
    RuntimeMonitorState {
        next_due_unix_ms: now,
        run_count: 0,
        last_error: None,
        remainder: String::new(),
    }
}

fn runtime_event(sequence: u64, fact: RuntimeStateFact) -> MonitorEvent {
    MonitorEvent {
        sequence,
        origin: EventOrigin {
            source: EventParty::Runtime,
            module: EventParty::Runtime,
            actor: EventParty::Runtime,
        },
        fact: Some(fact),
        fact_valid: true,
    }
}

fn apply(registry: &mut MonitorRegistry, update: MonitorUpdate) {
    let sequence = registry.last_sequence + 1;
    registry
        .apply(&runtime_event(
            sequence,
            RuntimeStateFact::MonitorChanged {
                owner_epoch: update.owner_epoch,
                change: Box::new(update.change),
            },
        ))
        .expect("recorded change");
}

fn imported(aliases: Vec<String>) -> MonitorRegistry {
    let mut registry = MonitorRegistry::new(7, &aliases, 64).expect("registry");
    let original =
        read_legacy_snapshot(JournalFile::Absent, &registry.allowed_aliases).expect("absent");
    let fact = registry.decide_import(original).expect("decision").expect("first import");
    registry.apply(&runtime_event(1, fact)).expect("import");
    registry
}

#[test]
fn due_probe_completion_does_not_overwrite_a_newer_policy() {
    let alias = "node.a".to_owned();
    let mut registry = imported(vec![alias.clone()]);
    let first = policy(1_000, "home");
    let replacement = policy(2_000, "campaign");
    let mut first_probe = None;
    for (policy, now) in [(first, 10), (replacement.clone(), 20)] {
        let update =
            registry.prepare_configure(&alias, Some(policy), Some(scheduled(now))).expect("update");
        apply(&mut registry, update);
        if now == 10 {
            assert!(registry.due(9, 1).expect("due").is_empty());
            first_probe = Some(registry.due(10, 1).expect("due").remove(0));
        }
    }
    let replacement_probe = registry.due(20, 1).expect("due").remove(0);
    for (probe, end, applied) in
        [(first_probe.expect("probe"), 11, false), (replacement_probe.clone(), 25, true)]
    {
        let state = RuntimeMonitorState {
            next_due_unix_ms: end + probe.policy.interval_ms,
            run_count: probe.state.run_count + 1,
            last_error: None,
            remainder: String::new(),
        };
        let update = registry.prepare_completion(&probe, Some(state)).expect("completion");
        assert_eq!(update.changed, applied);
        apply(&mut registry, update);
    }
    let status = registry.status().expect("status");
    assert_eq!(status[0].policy.as_ref(), Some(&replacement));
    assert_eq!(status[0].state.as_ref().expect("state").run_count, 1);
    // A clear/configure cycle cannot revive a probe from that same policy and source time.
    for clear in [true, false] {
        let update = if clear {
            registry.prepare_clear(&alias).expect("clear")
        } else {
            registry
                .prepare_configure(&alias, Some(replacement.clone()), Some(scheduled(20)))
                .expect("configure")
        };
        apply(&mut registry, update);
    }
    let failed = RuntimeMonitorState {
        next_due_unix_ms: 2_025,
        run_count: 1,
        last_error: Some("runtime_fatal".to_owned()),
        remainder: String::new(),
    };
    let stale = registry.prepare_failure(&replacement_probe, Some(failed)).expect("failure");
    assert!(!stale.changed);
    let change = stale.change;
    assert!(change.probe_configuration_version.expect("version") < change.configuration_version);
    assert_eq!(change.status.state.as_ref().expect("state").run_count, 0);
    assert!(change.probe_state.as_ref().expect("probe state").last_error.is_some());
}

#[test]
fn due_probe_batches_are_bounded_and_deterministic() {
    let aliases = (0..20).map(|index| format!("instance-{index:02}")).collect::<Vec<_>>();
    let mut registry = imported(aliases.clone());
    let policy = policy(100, "home");
    for alias in &aliases {
        let update = registry
            .prepare_configure(alias, Some(policy.clone()), Some(scheduled(10)))
            .expect("update");
        apply(&mut registry, update);
    }
    let due = registry.due(10, 16).expect("due");
    assert_eq!(due.len(), 16);
    assert_eq!(
        due.iter().map(|probe| probe.instance_alias.as_str()).collect::<Vec<_>>(),
        aliases[..16]
    );
}

fn record(alias: &str, revision: u64) -> MonitorRecord {
    MonitorRecord {
        schema_version: MONITOR_SCHEMA_VERSION.to_owned(),
        revision,
        monitors: vec![RuntimeMonitorInstanceStatus {
            instance_alias: alias.to_owned(),
            policy: Some(policy(2_000, "campaign")),
            state: Some(scheduled(5)),
        }],
        statuses_valid: true,
    }
}

fn journal(content: &[u8], records: Vec<Option<MonitorRecord>>) -> JournalFile {
    JournalFile::Present {
        length: content.len() as u64,
        content: content.to_vec(),
        records: Some(records),
    }
}

#[test]
fn registry_keeps_to_the_source_it_was_imported_from() {
    let aliases = vec!["node.a".to_owned()];
    let mut registry = MonitorRegistry::new(7, &aliases, 64).expect("registry");
    let original = read_legacy_snapshot(
        journal(b"abc\n", vec![Some(record("node.a", 1))]),
        &registry.allowed_aliases,
    )
    .expect("journal");
    assert_eq!(original.revision, 1);
    assert_eq!(
        original.source.as_ref().expect("source").sha256,
        "edeaaff3f1774ad2888673770c6d64097e391bc362d7d6fb34982ddf0efd18cb"
    );
    let fact = registry.decide_import(original.clone()).expect("decision").expect("import");
    registry.apply(&runtime_event(3, fact)).expect("import");
    assert_eq!(registry.revision, 1);
    let replacement = policy(1_000, "home");
    for (now, changed) in [(10, true), (20, false)] {
        let update = registry
            .prepare_configure(&aliases[0], Some(replacement.clone()), Some(scheduled(now)))
            .expect("update");
        assert_eq!(update.changed, changed);
        let before = registry.revision;
        apply(&mut registry, update);
        assert_eq!(registry.revision, before + u64::from(changed));
    }
    for changed in [true, false] {
        let update = registry.prepare_clear(&aliases[0]).expect("clear");
        assert_eq!(update.changed, changed);
        apply(&mut registry, update);
    }
    assert!(registry.decide_import(original).expect("same source").is_none());
    let changed = read_legacy_snapshot(
        journal(b"abc\n\n", vec![Some(record("node.a", 1))]),
        &registry.allowed_aliases,
    )
    .expect("journal");
    assert_eq!(
        registry.decide_import(changed).expect_err("other source").code(),
        "monitor_import_source_conflict"
    );
}

const CAMPAIGN_LINE: &[u8] = b"{\"schema_version\":\"actingcommand.runtime-monitor.v1\",\
\"revision\":1,\"monitors\":[{\"instance_alias\":\"node.a\"}]}\n";

fn changed(update: MonitorUpdate) -> RuntimeStateFact {
    RuntimeStateFact::MonitorChanged {
        owner_epoch: update.owner_epoch,
        change: Box::new(update.change),
    }
}

#[test]
fn registry_recovers_from_recorded_events_and_keeps_its_import() {
    let aliases = vec!["node.a".to_owned()];
    let file = || journal(CAMPAIGN_LINE, vec![Some(record("node.a", 1))]);
    let mut ledger: Vec<MonitorEvent> = Vec::new();
    let (mut registry, import) =
        MonitorRegistry::recover(7, &aliases, 64, &ledger, file()).expect("first open");
    ledger.push(runtime_event(1, import.expect("first import")));
    registry.apply(&ledger[0]).expect("import");
    let policy = policy(1_000, "home");
    for (now, applied) in [(10, true), (20, false)] {
        let update = registry
            .prepare_configure(&aliases[0], Some(policy.clone()), Some(scheduled(now)))
            .expect("update");
        assert_eq!(update.changed, applied);
        let before = registry.revision;
        ledger.push(runtime_event(ledger.len() as u64 + 1, changed(update)));
        assert_eq!(registry.revision, before);
        registry.apply(ledger.last().expect("event")).expect("recorded change");
        assert_eq!(registry.revision, before + u64::from(applied));
    }
    let (mut reopened, import) =
        MonitorRegistry::recover(8, &aliases, 64, &ledger, file()).expect("second open");
    assert!(import.is_none());
    let status = reopened.status().expect("status");
    assert_eq!(status[0].policy, Some(policy));
    for applied in [true, false] {
        let update = reopened.prepare_clear(&aliases[0]).expect("clear");
        assert_eq!(update.changed, applied);
        let before = reopened.revision;
        ledger.push(runtime_event(ledger.len() as u64 + 1, changed(update)));
        reopened.apply(ledger.last().expect("event")).expect("recorded change");
        assert_eq!(reopened.revision, before + u64::from(applied));
    }
    let imports = ledger
        .iter()
        .filter(|event| matches!(event.fact, Some(RuntimeStateFact::MonitorImported { .. })))
        .count();
    assert_eq!(imports, 1);
    let mut longer = CAMPAIGN_LINE.to_vec();
    longer.push(b'\n');
    let conflict = MonitorRegistry::recover(
        8,
        &aliases,
        64,
        &ledger,
        journal(&longer, vec![Some(record("node.a", 1))]),
    );
    assert_eq!(conflict.err().expect("other file").code(), "monitor_import_source_conflict");
}

#[test]
fn registry_is_not_recovered_from_a_corrupt_or_unknown_journal() {
    let aliases = vec!["node.a".to_owned()];
    let unknown = b"{\"monitors\":[{\"instance_alias\":\"node.unknown\"}]}";
    let mut unknown_line = unknown.to_vec();
    unknown_line.push(b'\n');
    let files = [
        journal(b"not-json\n", vec![None]),
        journal(unknown, vec![Some(record("node.unknown", 1))]),
        journal(&unknown_line, vec![Some(record("node.unknown", 1))]),
    ];
    for file in files {
        let error = MonitorRegistry::recover(7, &aliases, 64, &Vec::new(), file)
            .err()
            .expect("refused");
        assert_eq!(error.code(), "monitor_record_invalid");
        assert!(records_restore_failure(&error));
    }
    let none = MonitorRegistry::recover(7, &Vec::new(), 64, &Vec::new(), JournalFile::Absent);
    assert_eq!(none.err().expect("no instances").code(), "invalid_monitor_instance_registry");
}

#[test]
fn corrupt_or_unknown_journals_are_refused() {
    let aliases = vec!["node.a".to_owned()];
    let registry = MonitorRegistry::new(7, &aliases, 64).expect("registry");
    let allowed = &registry.allowed_aliases;
    let code = |file: JournalFile| read_legacy_snapshot(file, allowed).expect_err("refused").code();
    assert_eq!(code(journal(b"not-json\n", vec![None])), "monitor_record_invalid");
    assert_eq!(
        code(journal(b"truncated", vec![Some(record("node.a", 1))])),
        "monitor_record_invalid"
    );
    assert_eq!(
        code(journal(b"x\n", vec![Some(record("node.unknown", 1))])),
        "monitor_record_invalid"
    );
    assert_eq!(
        code(journal(b"x\n", vec![Some(record("node.a", 2))])),
        "monitor_record_invalid"
    );
    assert_eq!(
        code(JournalFile::Present { length: 3, content: b"x\n".to_vec(), records: None }),
        "monitor_source_changed"
    );
    let empty = read_legacy_snapshot(journal(b"", Vec::new()), allowed).expect("empty");
    assert_eq!(empty.revision, 0);
    assert!(empty.source.is_some());
    assert_eq!(
        check_journal_length(11, 10).expect_err("too long").code(),
        "monitor_journal_too_large"
    );
    assert!(records_restore_failure(&read_legacy_snapshot(
        journal(b"not-json\n", vec![None]),
        allowed
    )
    .expect_err("refused")));
}

#[test]
fn events_that_do_not_follow_are_refused() {
    let aliases = vec!["node.a".to_owned()];
    assert_eq!(
        MonitorRegistry::new(7, &Vec::new(), 64).err().expect("no instances").code(),
        "invalid_monitor_instance_registry"
    );
    let mut registry = imported(aliases.clone());
    let again = RuntimeStateFact::MonitorImported {
        owner_epoch: 7,
        import: RuntimeMonitorImport { source: None, revision: 0, instances: Vec::new() },
    };
    assert_eq!(
        registry.apply(&runtime_event(2, again.clone())).expect_err("twice").code(),
        "monitor_import_conflict"
    );
    assert_eq!(
        registry.apply(&runtime_event(1, again)).expect_err("old").code(),
        "monitor_record_invalid"
    );
    assert_eq!(
        registry
            .prepare_configure(&"node.b".to_owned(), Some(policy(1, "p")), Some(scheduled(1)))
            .expect_err("unknown")
            .code(),
        "monitor_instance_unknown"
    );
    assert_eq!(
        registry
            .prepare_configure(&aliases[0], None, Some(scheduled(1)))
            .expect_err("policy")
            .code(),
        "monitor_policy_invalid"
    );
    assert_eq!(registry.due(0, 1).expect_err("no time").code(), "monitor_due_query_invalid");
}
