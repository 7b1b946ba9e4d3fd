//! Bindings of procedures to approved content.

use runtime_host::digest::sha256_hex;
use runtime_host::performance_control::LoadProfile;
use runtime_host::policy::catalog::{DispatchIntent, DispatchPrerequisites};
use runtime_host::policy::evaluation::{DecisionReasonChain, PolicyEvaluation, PolicyReasonRecord};
use runtime_host::procedure_manifest::{ProcedureBinding, ProcedureManifest};

const PACKAGE: &str = "sha256:abababababababababababababababababababababababababababababababab";

fn binding() -> ProcedureBinding {
    ProcedureBinding::new(
        "proc.a".to_owned(),
        PACKAGE.to_owned(),
        "op.a".to_owned(),
        vec!["y1".to_owned(), "y2".to_owned()],
    )
    .expect("binding")
}

fn intent(decision_id: &str) -> DispatchIntent {
    DispatchIntent {
        decision_id: decision_id.to_owned(),
        task_id: "task-a".to_owned(),
        instance_id: "instance-a".to_owned(),
        operation_id: "op.a".to_owned(),
        procedure_ref: "proc.a".to_owned(),
        package_digest: None,
        procedure_binding_digest: None,
        catalog_hash: "sha256:x".to_owned(),
        catalog_version: 1,
        input_ledger_position: 1,
        fact_snapshot_id: "snapshot".to_owned(),
        approval_refs: Vec::new(),
        reason_chain_id: "reason:old".to_owned(),
        expected_duration_ms: 1,
        yield_points: vec!["y1".to_owned(), "y2".to_owned()],
        load_profile: LoadProfile::Light,
        prerequisites: DispatchPrerequisites {
            fencing_required: true,
            evaluated_at_unix_ms: 1,
            facts_fresh_until_unix_ms: None,
            activity_profile_id: "profile".to_owned(),
            daily_limit: 1,
            window_iteration_limit: 1,
            max_runtime_ms: 1,
            urgency_milli: 0,
        },
    }
}

fn chain(id: &str, decision_id: &str) -> DecisionReasonChain {
    DecisionReasonChain {
        id: id.to_owned(),
        decision_id: decision_id.to_owned(),
        reasons: vec![PolicyReasonRecord { code: "due".to_owned(), detail: "now".to_owned() }],
    }
}

fn evaluation(decision_id: &str) -> PolicyEvaluation {
    PolicyEvaluation {
        decisions: Vec::new(),
        dispatch_intents: vec![intent(decision_id)],
        reason_chains: vec![chain("reason:old", decision_id), chain("reason:other", "decision:2")],
        remainder: String::new(),
    }
}

fn manifest() -> ProcedureManifest {
    ProcedureManifest::new(vec![binding()]).expect("manifest")
}

#[test]
fn a_binding_is_named_after_the_digest_of_its_parts() {
    let made = binding();
    assert_eq!(
        made.binding_digest(),
        "sha256:edcffbec06d192a71d194385a48267270752123f78632648a4c5f8e2e63fdf6d"
    );
    assert_eq!(made.procedure_ref(), "proc.a");
    assert_eq!(made.package_digest(), PACKAGE);
    assert_eq!(made.operation_id(), "op.a");
    assert_eq!(made.yield_points(), ["y1", "y2"]);
    let without = ProcedureBinding::new(
        "proc.a".to_owned(),
        PACKAGE.to_owned(),
        "op.a".to_owned(),
        Vec::new(),
    )
    .expect("binding");
    assert_eq!(
        without.binding_digest(),
        "sha256:1d7d11d28c9c2afce9e45eb0dab3b34481a259bbaf5ef3bdf07e1b9dbbb3bdca"
    );
}

#[test]
fn parts_that_make_no_binding_are_refused() {
    let code = |reference: &str, package: &str, point: &str| {
        let error = ProcedureBinding::new(
            reference.to_owned(),
            package.to_owned(),
            "op.a".to_owned(),
            vec![point.to_owned()],
        )
        .expect_err("refused");
        (error.code(), error.operation())
    };
    assert_eq!(
        code("proc a", PACKAGE, "y"),
        ("procedure_manifest_token_invalid", "procedure_ref")
    );
    assert_eq!(
        code("proc.a", "sha256:AB", "y"),
        ("procedure_package_digest_invalid", "package_digest")
    );
    assert_eq!(
        code("proc.a", PACKAGE, ""),
        ("procedure_manifest_token_invalid", "yield_point")
    );
    assert_eq!(
        code(&"x".repeat(257), PACKAGE, "y"),
        ("procedure_manifest_token_invalid", "procedure_ref")
    );
}

#[test]
fn a_manifest_has_every_alias_once() {
    assert_eq!(
        ProcedureManifest::new(Vec::new()).err().expect("empty").code(),
        "procedure_manifest_empty"
    );
    assert_eq!(
        ProcedureManifest::new(vec![binding(), binding()]).err().expect("twice").code(),
        "procedure_manifest_alias_duplicate"
    );
    assert!(manifest().binding("proc.a").is_some());
    assert!(manifest().binding("proc.b").is_none());
}

#[test]
fn binding_an_evaluation_renames_its_decisions_and_reasons() {
    let mut bound = evaluation("decision:1");
    manifest().bind_evaluation(&mut bound).expect("bound");
    let intent = &bound.dispatch_intents[0];
    assert_eq!(
        intent.decision_id,
        "decision:8653809e46cc47f7509bb5456951ea7b83f210d42ef4a38df19de88aae309e93"
    );
    assert_eq!(
        intent.reason_chain_id,
        "reason:8653809e46cc47f7509bb5456951ea7b83f210d42ef4a38df19de88aae309e93"
    );
    assert_eq!(intent.package_digest.as_deref(), Some(PACKAGE));
    assert_eq!(bound.reason_chains[0].id, intent.reason_chain_id);
    assert_eq!(bound.reason_chains[0].decision_id, intent.decision_id);
    assert_eq!(bound.reason_chains[1].decision_id, "decision:2");
    manifest().validate_intent(intent, "check").expect("bound as the manifest says");
    assert_eq!(
        manifest().bind_evaluation(&mut bound).expect_err("again").code(),
        "procedure_intent_already_bound"
    );
}

#[test]
fn an_id_with_characters_to_escape_is_encoded_as_json() {
    let mut bound = evaluation("decision:\"x\"\n");
    manifest().bind_evaluation(&mut bound).expect("bound");
    assert_eq!(
        bound.dispatch_intents[0].decision_id,
        "decision:02507b6cce76d5c31ea45a948ff7a55526922b54f3a7c0aec2cfb8a6337cff82"
    );
    let mut escaped = evaluation("\u{8}\t\n\u{c}\r\"\\\u{1}\u{1f}\u{7f}\u{e9}/");
    manifest().bind_evaluation(&mut escaped).expect("bound");
    let mut json = b"[\"\\b\\t\\n\\f\\r\\\"\\\\\\u0001\\u001f\x7f\xc3\xa9/\",\"".to_vec();
    json.extend_from_slice(binding().binding_digest().as_bytes());
    json.extend_from_slice(b"\"]");
    assert_eq!(
        escaped.dispatch_intents[0].decision_id,
        format!("decision:{}", sha256_hex(&json))
    );
}

#[test]
fn an_evaluation_that_cannot_be_bound_stays_as_it_is() {
    let code = |change: &dyn Fn(&mut PolicyEvaluation)| {
        let mut unbound = evaluation("decision:1");
        change(&mut unbound);
        let error = manifest().bind_evaluation(&mut unbound).expect_err("refused");
        assert!(unbound.dispatch_intents[0].package_digest.is_none());
        error.code()
    };
    assert_eq!(
        code(&|e| e.dispatch_intents[0].procedure_ref = "proc.b".to_owned()),
        "procedure_manifest_entry_missing"
    );
    assert_eq!(
        code(&|e| e.dispatch_intents[0].operation_id = "op.b".to_owned()),
        "procedure_operation_mismatch"
    );
    assert_eq!(
        code(&|e| {
            e.dispatch_intents[0].yield_points.pop();
        }),
        "procedure_yield_points_mismatch"
    );
    assert_eq!(
        code(&|e| {
            let again = e.dispatch_intents[0].copy();
            e.dispatch_intents.push(again);
        }),
        "procedure_decision_identity_duplicate"
    );
    assert_eq!(
        code(&|e| e.reason_chains[0].id = "reason:new".to_owned()),
        "procedure_reason_chain_identity_mismatch"
    );
    assert_eq!(
        code(&|e| {
            e.reason_chains.remove(0);
        }),
        "procedure_reason_chain_missing"
    );
    let mut other = intent("decision:1");
    assert_eq!(
        manifest().validate_intent(&other, "check").expect_err("unbound").code(),
        "procedure_package_digest_mismatch"
    );
    other.package_digest = Some(PACKAGE.to_owned());
    assert_eq!(
        manifest().validate_intent(&other, "check").expect_err("unbound").code(),
        "procedure_binding_digest_mismatch"
    );
}
