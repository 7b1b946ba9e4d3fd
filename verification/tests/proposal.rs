//! Proposals as changes of the catalog documents.

use runtime_host::json::Json;
use runtime_host::json_value::{parse_json, write_json};
use runtime_host::ordered_map::OrderedMap;
use runtime_host::policy::generation::{
    CatalogDocumentSource, CatalogGeneration, CatalogSources,
};
use runtime_host::proposal::{
    apply_patch, change_document, checked_preview, decode_pointer, parse_array_index,
    prepare_proposal, validate_compiled_target, CatalogDeclarationPatch, CatalogProposal, ProposalDocument,
    ProposalKind, ProposalPatchOperation, ProposalWork, TaskTemplateInstantiation,
};

fn number(value: u64) -> Json {
    Json::unsigned(value)
}

fn object(members: Vec<(&str, Json)>) -> Json {
    let mut map = OrderedMap::new();
    for (key, value) in members {
        map.insert(key.to_owned(), value);
    }
    Json::Object(map)
}

fn shown(json: &Json) -> String {
    String::from_utf8(write_json(json).expect("written")).expect("text")
}

fn document() -> Json {
    object(vec![
        ("a/b", object(vec![("~", number(1))])),
        ("list", Json::List(vec![number(10), object(vec![("x", Json::Null)])])),
    ])
}

fn patched(
    path: &str,
    operation: ProposalPatchOperation,
    value_json: Option<&str>,
) -> Result<String, &'static str> {
    apply_patch(
        document(),
        &CatalogDeclarationPatch {
            document: ProposalDocument::Tasks,
            path: path.to_owned(),
            operation,
            value_json: value_json.map(str::to_owned),
        },
    )
    .map(|json| shown(&json))
    .map_err(|error| error.code())
}

#[test]
fn a_document_is_read_and_written() {
    let read = |text: &str| parse_json(text.as_bytes()).map(|json| shown(&json));
    assert_eq!(
        read(" {\"b\": [1, -2, 3.5, 1e3, null, true], \"a\": {\"t\": \"\\u00e9\\n\"}} ").expect("read"),
        "{\"a\":{\"t\":\"\u{e9}\\n\"},\"b\":[1,-2,3.5,1000.0,null,true]}"
    );
    assert_eq!(read("{\"k\":1,\"k\":2}").expect("the later counts"), "{\"k\":2}");
    assert_eq!(read("18446744073709551615").expect("large"), "18446744073709551615");
    for refused in ["", "{", "[1,]", "nul", "1 2", "{\"a\" 1}"] {
        assert!(read(refused).is_err(), "{refused}");
    }
    assert!(parse_json(b"\"\xff\"").is_err());
    assert_eq!(shown(&Json::signed(-5)), "-5");
    assert_eq!(shown(&number(7).copy()), "7");
}

#[test]
fn a_change_takes_a_decoded_value() {
    let changed = change_document(
        document(),
        "/list/1/y",
        ProposalPatchOperation::Add,
        Some(Some(Json::Bool(false))),
    )
    .expect("changed");
    assert_eq!(shown(&changed), "{\"a/b\":{\"~\":1},\"list\":[10,{\"x\":null,\"y\":false}]}");
}

#[test]
fn a_patch_reaches_members_and_items_by_their_path() {
    assert_eq!(
        patched("/a~1b/~0", ProposalPatchOperation::Replace, Some("2")).expect("replaced"),
        "{\"a/b\":{\"~\":2},\"list\":[10,{\"x\":null}]}"
    );
    assert_eq!(
        patched("/list/1/y", ProposalPatchOperation::Add, Some("true")).expect("added"),
        "{\"a/b\":{\"~\":1},\"list\":[10,{\"x\":null,\"y\":true}]}"
    );
    assert_eq!(
        patched("/list/0", ProposalPatchOperation::Add, Some("5")).expect("inserted"),
        "{\"a/b\":{\"~\":1},\"list\":[5,10,{\"x\":null}]}"
    );
    assert_eq!(
        patched("/list/-", ProposalPatchOperation::Add, Some("5")).expect("appended"),
        "{\"a/b\":{\"~\":1},\"list\":[10,{\"x\":null},5]}"
    );
    assert_eq!(patched("/list/1", ProposalPatchOperation::Remove, None).expect("removed"), "{\"a/b\":{\"~\":1},\"list\":[10]}");
    assert_eq!(patched("/a~1b", ProposalPatchOperation::Remove, None).expect("removed"), "{\"list\":[10,{\"x\":null}]}");
}

#[test]
fn a_patch_that_does_not_fit_is_refused() {
    assert_eq!(patched("", ProposalPatchOperation::Remove, None), Err("proposal_patch_path_invalid"));
    assert_eq!(patched("/a//b", ProposalPatchOperation::Remove, None), Err("proposal_patch_path_invalid"));
    assert_eq!(patched("/a~2", ProposalPatchOperation::Remove, None), Err("proposal_patch_path_invalid"));
    assert_eq!(patched("/none/x", ProposalPatchOperation::Remove, None), Err("proposal_patch_parent_missing"));
    assert_eq!(patched("/list/0/x", ProposalPatchOperation::Remove, None), Err("proposal_patch_parent_invalid"));
    assert_eq!(patched("/list/0/x/y", ProposalPatchOperation::Remove, None), Err("proposal_patch_parent_missing"));
    assert_eq!(patched("/list/01", ProposalPatchOperation::Remove, None), Err("proposal_patch_index_invalid"));
    assert_eq!(patched("/list/2", ProposalPatchOperation::Remove, None), Err("proposal_patch_target_conflict"));
    assert_eq!(
        patched("/list", ProposalPatchOperation::Add, Some("null")),
        Err("proposal_patch_target_conflict")
    );
    assert_eq!(patched("/list", ProposalPatchOperation::Replace, None), Err("proposal_patch_value_missing"));
    assert_eq!(
        patched("/list", ProposalPatchOperation::Replace, Some("{")),
        Err("proposal_patch_value_invalid")
    );
    assert_eq!(
        patched("/none/x", ProposalPatchOperation::Replace, Some("{")),
        Err("proposal_patch_parent_missing")
    );
}

#[test]
fn paths_and_indices_are_read_exactly() {
    assert_eq!(decode_pointer("/a~1b/~0c").expect("path"), ["a/b", "~c"]);
    assert!(decode_pointer("nothing").expect("no slash").is_empty());
    assert_eq!(parse_array_index("0").expect("zero"), 0);
    assert_eq!(parse_array_index("120").expect("number"), 120);
    assert_eq!(parse_array_index("+7").expect("plus"), 7);
    for refused in ["", "00", "-1", "+", "1a", "99999999999999999999999"] {
        assert_eq!(
            parse_array_index(refused).expect_err(refused).code(),
            "proposal_patch_index_invalid"
        );
    }
}

fn generation() -> CatalogGeneration {
    CatalogGeneration {
        schema_version: "s".to_owned(),
        catalog_id: "c".to_owned(),
        catalog_version: 3,
        catalog_hash: "sha256:base".to_owned(),
        sources: Vec::new(),
    }
}

fn source(name: &str, text: &str) -> CatalogDocumentSource {
    CatalogDocumentSource {
        source_uri: format!("file:{name}"),
        bytes: text.as_bytes().to_vec(),
    }
}

const VERSIONED: &str = "{\"catalog\":{\"catalog_version\":3}}";

fn base() -> CatalogSources {
    CatalogSources {
        tasks: source(
            "tasks",
            "{\"catalog\":{\"catalog_version\":3},\"tasks\":[{\"id\":\"template\",\
             \"weight\":0.1,\"feedback_stop\":{\"task_id\":\"template\"}}]}",
        ),
        pools: source("pools", VERSIONED),
        activity: source("activity", VERSIONED),
        timeline: source("timeline", VERSIONED),
    }
}

fn bytes_text(source: &CatalogDocumentSource) -> &str {
    std::str::from_utf8(&source.bytes).expect("text")
}

fn proposal(kind: ProposalKind) -> CatalogProposal {
    CatalogProposal {
        well_formed: true,
        base_catalog_hash: "sha256:base".to_owned(),
        base_catalog_version: 3,
        target_catalog_version: 4,
        proposal: kind,
    }
}

fn instantiation(new_task_id: &str, template_task_id: &str) -> ProposalKind {
    ProposalKind::ParameterInstantiation {
        instantiation: TaskTemplateInstantiation {
            new_task_id: new_task_id.to_owned(),
            template_task_id: template_task_id.to_owned(),
            instance_id: "instance-b".to_owned(),
            priority: Some(-5),
            strategic_weight_milli: None,
        },
    }
}

#[test]
fn a_template_becomes_a_task_of_its_own() {
    let ProposalWork::Compile(made) =
        prepare_proposal(&generation(), &base(), &proposal(instantiation("new", "template")))
            .expect("prepared")
    else {
        panic!("documents to compile")
    };
    assert_eq!(
        bytes_text(&made.tasks),
        "{\"catalog\":{\"catalog_version\":4},\"tasks\":[{\"feedback_stop\":{\"task_id\":\
         \"template\"},\"id\":\"template\",\"weight\":0.1},{\"feedback_stop\":{\"task_id\":\
         \"new\"},\"id\":\"new\",\"instance_overrides\":[],\"priority\":-5,\"scope\":{\
         \"instance_id\":\"instance-b\",\"kind\":\"instance\"},\"weight\":0.1}]}"
    );
    assert_eq!(made.tasks.source_uri, "file:tasks");
    assert_eq!(bytes_text(&made.pools), "{\"catalog\":{\"catalog_version\":4}}");
}

#[test]
fn proposals_that_do_not_fit_are_refused() {
    let code = |sources: CatalogSources, proposal: CatalogProposal| {
        prepare_proposal(&generation(), &sources, &proposal).err().map(|error| error.code())
    };
    assert_eq!(
        code(base(), proposal(instantiation("template", "template"))),
        Some("proposal_task_identity_conflict")
    );
    assert_eq!(
        code(base(), proposal(instantiation("new", "unknown"))),
        Some("proposal_template_unknown")
    );
    let mut stale = proposal(ProposalKind::LanguageExtension);
    stale.base_catalog_version = 2;
    assert_eq!(code(base(), stale), Some("proposal_base_catalog_changed"));
    let mut malformed = proposal(ProposalKind::LanguageExtension);
    malformed.well_formed = false;
    assert_eq!(code(base(), malformed), Some("proposal_invalid"));
    let mut undecodable = base();
    undecodable.pools = source("pools", "{");
    assert_eq!(
        code(undecodable, proposal(instantiation("new", "template"))),
        Some("proposal_base_document_invalid")
    );
    let mut shapeless = base();
    shapeless.pools = source("pools", "null");
    assert_eq!(
        code(shapeless, proposal(instantiation("new", "template"))),
        Some("proposal_catalog_shape_invalid")
    );
    let mut no_tasks = base();
    no_tasks.tasks = source("tasks", VERSIONED);
    assert_eq!(
        code(no_tasks, proposal(instantiation("new", "template"))),
        Some("proposal_tasks_shape_invalid")
    );
    assert_eq!(
        validate_compiled_target(4, None).expect_err("broken").code(),
        "proposal_catalog_compile_failed"
    );
    assert_eq!(
        validate_compiled_target(4, Some(5)).expect_err("other").code(),
        "proposal_target_version_mismatch"
    );
}

#[test]
fn patches_change_only_their_documents() {
    let patches = vec![
        CatalogDeclarationPatch {
            document: ProposalDocument::Pools,
            path: "/catalog/catalog_version".to_owned(),
            operation: ProposalPatchOperation::Replace,
            value_json: Some("4".to_owned()),
        },
        CatalogDeclarationPatch {
            document: ProposalDocument::Pools,
            path: "/note".to_owned(),
            operation: ProposalPatchOperation::Add,
            value_json: Some("\"n\"".to_owned()),
        },
    ];
    let ready = prepare_proposal(
        &generation(),
        &base(),
        &proposal(ProposalKind::CatalogDiff { patches }),
    )
    .expect("prepared")
    .into_ready()
    .expect("ready");
    assert_eq!(
        bytes_text(&ready.pools),
        "{\"catalog\":{\"catalog_version\":4},\"note\":\"n\"}"
    );
    assert_eq!(bytes_text(&ready.activity), VERSIONED);
    let waiting = prepare_proposal(
        &generation(),
        &base(),
        &proposal(ProposalKind::LanguageExtension),
    )
    .expect("prepared");
    assert_eq!(
        waiting.into_ready().expect_err("waits for people").code(),
        "proposal_requires_human_specification"
    );
}

#[test]
fn a_preview_that_its_contract_refuses_is_fatal() {
    assert_eq!(checked_preview(Some(3)).expect("preview"), 3);
    let error = checked_preview(None::<u8>).expect_err("refused");
    assert_eq!((error.code(), error.operation()), ("proposal_preview_invalid", "compile_proposal"));
    assert!(error.is_fatal());
}
