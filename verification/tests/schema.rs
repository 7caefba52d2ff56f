use near_openrpc_client::schema::{
    convert_const_to_defaulted_enum, expand_allof_refs, load_schema, merge_variant_properties,
    prepare_schema, try_expand_allof, LoadError,
};
use near_openrpc_client::Json;

// The library's value for a parsed JSON document; object keys come out in
// the order in which serde_json walks them.
fn convert(value: &serde_json::Value) -> Json {
    match value {
        serde_json::Value::Null => Json::Null,
        serde_json::Value::Bool(b) => Json::Bool(*b),
        serde_json::Value::Number(n) => Json::Number(n.to_string()),
        serde_json::Value::String(s) => Json::String(s.clone()),
        serde_json::Value::Array(items) => Json::Array(items.iter().map(convert).collect()),
        serde_json::Value::Object(map) => Json::Object(
            map.iter()
                .map(|(key, value)| (key.clone(), convert(value)))
                .collect(),
        ),
    }
}

fn json(text: &str) -> Json {
    convert(&serde_json::from_str(text).expect("the test's JSON is well formed"))
}

fn titles(union: &Json) -> Vec<String> {
    union
        .get("oneOf")
        .and_then(Json::as_array)
        .expect("a oneOf array")
        .iter()
        .map(|variant| {
            variant
                .get("title")
                .and_then(Json::as_str)
                .unwrap_or("")
                .to_string()
        })
        .collect()
}

fn definitions(schema: &Json) -> &Vec<(String, Json)> {
    schema
        .get("definitions")
        .and_then(Json::as_object)
        .expect("a definitions object")
}

#[test]
fn intersection_of_two_unions_expands_to_four_titled_variants() {
    let mut schema = json(
        r##"{"definitions": {
            "A": {"oneOf": [{"title": "X"}, {"title": "Y"}]},
            "B": {"oneOf": [{"title": "P"}, {"title": "Q"}]},
            "C": {"allOf": [{"$ref": "#/definitions/A"}, {"$ref": "#/definitions/B"}]}
        }}"##,
    );
    expand_allof_refs(&mut schema);
    let c = schema.get("definitions").unwrap().get("C").unwrap();
    assert!(c.get("allOf").is_none());
    assert_eq!(titles(c), vec!["PX", "PY", "QX", "QY"]);
    for variant in c.get("oneOf").unwrap().as_array().unwrap() {
        assert_eq!(
            variant.get("type"),
            Some(&Json::String("object".to_string()))
        );
    }
    // The referenced definitions stay as they were.
    assert_eq!(
        schema.get("definitions").unwrap().get("A"),
        Some(&json(r#"{"oneOf": [{"title": "X"}, {"title": "Y"}]}"#))
    );
}

#[test]
fn expansion_has_m_times_n_variants_with_the_union_of_required_names() {
    let defs = json(
        r##"{
            "Who": {"oneOf": [
                {"title": "Account", "properties": {"account_id": {"type": "string"}}, "required": ["account_id"]},
                {"title": "Key", "properties": {"account_id": {}, "public_key": {}}, "required": ["account_id", "public_key"]},
                {"title": "Code", "properties": {"code_hash": {}}, "required": ["code_hash"]}
            ]},
            "When": {"oneOf": [
                {"title": "ByBlockId", "properties": {"block_id": {}}, "required": ["block_id"]},
                {"title": "ByFinality", "properties": {"finality": {}}, "required": ["finality", "account_id"]}
            ]}
        }"##,
    );
    let schema =
        json(r##"{"allOf": [{"$ref": "#/definitions/Who"}, {"$ref": "#/definitions/When"}]}"##);
    let union = try_expand_allof(&schema, defs.as_object().unwrap()).expect("an expansion");
    let variants = union.get("oneOf").unwrap().as_array().unwrap();
    assert_eq!(variants.len(), 3 * 2);
    assert_eq!(
        titles(&union),
        vec![
            "ByBlockIdAccount",
            "ByBlockIdKey",
            "ByBlockIdCode",
            "ByFinalityAccount",
            "ByFinalityKey",
            "ByFinalityCode"
        ]
    );
    let required: Vec<Json> = variants
        .iter()
        .map(|variant| variant.get("required").unwrap().clone())
        .collect();
    assert_eq!(
        required,
        vec![
            json(r#"["account_id", "block_id"]"#),
            json(r#"["account_id", "public_key", "block_id"]"#),
            json(r#"["code_hash", "block_id"]"#),
            json(r#"["account_id", "finality"]"#),
            json(r#"["account_id", "public_key", "finality"]"#),
            json(r#"["code_hash", "finality", "account_id"]"#),
        ]
    );
}

#[test]
fn merged_variant_takes_later_properties_and_titles_the_second_first() {
    let a = json(
        r#"{"title": "Account", "properties": {"id": {"type": "string"}, "x": 1}, "required": ["id", 7, "id"]}"#,
    );
    let b = json(
        r#"{"title": "ByBlockId", "properties": {"id": {"type": "integer"}, "y": 2}, "required": ["y", "id"], "description": "dropped"}"#,
    );
    let merged = merge_variant_properties(&a, &b).expect("two objects merge");
    assert_eq!(
        merged,
        Json::Object(vec![
            (
                "properties".to_string(),
                Json::Object(vec![
                    ("id".to_string(), json(r#"{"type": "integer"}"#)),
                    ("x".to_string(), json("1")),
                    ("y".to_string(), json("2")),
                ])
            ),
            ("required".to_string(), json(r#"["id", "y"]"#)),
            ("title".to_string(), json(r#""ByBlockIdAccount""#)),
            ("type".to_string(), json(r#""object""#)),
        ])
    );
}

#[test]
fn merged_variant_of_bare_objects_is_a_bare_object_type() {
    let merged = merge_variant_properties(&json("{}"), &json("{}")).unwrap();
    assert_eq!(merged, json(r#"{"type": "object"}"#));
    let titled = merge_variant_properties(&json("{}"), &json(r#"{"title": "Only"}"#)).unwrap();
    assert_eq!(titled.get("title"), Some(&json(r#""Only""#)));
    let titled = merge_variant_properties(&json(r#"{"title": "Only"}"#), &json("{}")).unwrap();
    assert_eq!(titled.get("title"), Some(&json(r#""Only""#)));
}

#[test]
fn values_that_are_not_objects_do_not_merge() {
    assert_eq!(merge_variant_properties(&json("{}"), &json("[]")), None);
    assert_eq!(merge_variant_properties(&json("\"a\""), &json("{}")), None);
}

#[test]
fn other_forms_of_composition_pass_through() {
    let defs = json(r##"{"A": {"title": "A"}, "B": {"oneOf": [{"title": "P"}]}}"##);
    let defs = defs.as_object().unwrap();
    // A single reference.
    assert_eq!(
        try_expand_allof(&json(r##"{"allOf": [{"$ref": "#/definitions/A"}]}"##), defs),
        None
    );
    // An element that is no reference.
    assert_eq!(
        try_expand_allof(
            &json(r##"{"allOf": [{"$ref": "#/definitions/A"}, {"type": "object"}]}"##),
            defs
        ),
        None
    );
    // A reference that cannot be resolved.
    assert_eq!(
        try_expand_allof(
            &json(
                r##"{"allOf": [{"$ref": "#/definitions/A"}, {"$ref": "#/definitions/Missing"}]}"##
            ),
            defs
        ),
        None
    );
    // A reference into another document section.
    assert_eq!(
        try_expand_allof(
            &json(
                r##"{"allOf": [{"$ref": "#/definitions/A"}, {"$ref": "#/components/schemas/B"}]}"##
            ),
            defs
        ),
        None
    );
    // No intersection at all.
    assert_eq!(try_expand_allof(&json(r#"{"type": "object"}"#), defs), None);
    assert_eq!(try_expand_allof(&json(r#"{"allOf": {}}"#), defs), None);
    assert_eq!(try_expand_allof(&json("[]"), defs), None);
}

#[test]
fn a_target_without_alternatives_is_a_group_of_its_own_and_the_title_is_kept() {
    let defs = json(
        r##"{"A": {"title": "A", "properties": {"a": {}}, "required": ["a"]},
             "B": {"oneOf": [{"title": "P"}, {"title": "Q"}]}}"##,
    );
    let schema = json(
        r##"{"title": "Both", "description": "left out",
             "allOf": [{"$ref": "#/definitions/A"}, {"$ref": "#/definitions/B"}]}"##,
    );
    let union = try_expand_allof(&schema, defs.as_object().unwrap()).unwrap();
    assert_eq!(titles(&union), vec!["PA", "QA"]);
    assert_eq!(union.get("title"), Some(&json(r#""Both""#)));
    assert_eq!(union.as_object().unwrap().len(), 2);
}

#[test]
fn expansion_reaches_nested_definitions_but_is_not_applied_to_its_own_output() {
    let mut schema = json(
        r##"{"definitions": {
            "A": {"oneOf": [{"title": "X"}]},
            "B": {"oneOf": [{"title": "P"}]},
            "Outer": {"definitions": {
                "A": {"oneOf": [{"title": "InnerX"}]},
                "B": {"oneOf": [{"title": "InnerP"}]},
                "C": {"allOf": [{"$ref": "#/definitions/A"}, {"$ref": "#/definitions/B"}]}
            }},
            "Z": {"allOf": [{"$ref": "#/definitions/A"}, {"$ref": "#/definitions/B"}]}
        }}"##,
    );
    expand_allof_refs(&mut schema);
    let defs = schema.get("definitions").unwrap();
    assert_eq!(titles(defs.get("Z").unwrap()), vec!["PX"]);
    let inner = defs.get("Outer").unwrap().get("definitions").unwrap();
    assert_eq!(titles(inner.get("C").unwrap()), vec!["InnerPInnerX"]);
}

#[test]
fn literal_discriminator_becomes_a_defaulted_enumeration() {
    let mut schema = json(
        r#"{"type": "object",
            "properties": {"account_id": {"type": "string"},
                           "request_type": {"const": "view_account", "type": "string"}},
            "required": ["account_id", "request_type"]}"#,
    );
    convert_const_to_defaulted_enum(&mut schema);
    assert_eq!(
        schema.get("properties").unwrap().get("request_type"),
        Some(&Json::Object(vec![
            ("type".to_string(), json(r#""string""#)),
            ("enum".to_string(), json(r#"["view_account"]"#)),
            ("default".to_string(), json(r#""view_account""#)),
        ]))
    );
    assert_eq!(schema.get("required"), Some(&json(r#"["account_id"]"#)));
    assert_eq!(
        schema.get("properties").unwrap().get("account_id"),
        Some(&json(r#"{"type": "string"}"#))
    );
}

#[test]
fn other_literal_properties_are_left_alone() {
    let text = r#"{"oneOf": [{"properties": {"type": {"const": "a"}, "request_type": {"type": "string"}},
                              "required": ["type", "request_type"]}],
                   "request_type": {"const": "not a property"}}"#;
    let mut schema = json(text);
    convert_const_to_defaulted_enum(&mut schema);
    assert_eq!(schema, json(text));
}

#[test]
fn normalizing_reaches_objects_inside_arrays_and_is_idempotent() {
    let mut schema = json(
        r#"{"definitions": {"Q": {"oneOf": [
            {"properties": {"request_type": {"const": "view_code", "type": "string"}}, "required": ["request_type"]},
            {"properties": {"request_type": {"const": "view_state", "type": "string"}}}
        ]}}}"#,
    );
    convert_const_to_defaulted_enum(&mut schema);
    let once = schema.clone();
    let variants = definitions(&once)[0]
        .1
        .get("oneOf")
        .unwrap()
        .as_array()
        .unwrap();
    assert_eq!(
        variants[0]
            .get("properties")
            .unwrap()
            .get("request_type")
            .unwrap()
            .get("default"),
        Some(&json(r#""view_code""#))
    );
    assert_eq!(variants[0].get("required"), Some(&json("[]")));
    assert_eq!(
        variants[1]
            .get("properties")
            .unwrap()
            .get("request_type")
            .unwrap()
            .get("enum"),
        Some(&json(r#"["view_state"]"#))
    );
    assert!(variants[1].get("required").is_none());
    convert_const_to_defaulted_enum(&mut schema);
    assert_eq!(schema, once);
}

#[test]
fn loading_takes_the_schemas_and_makes_references_local() {
    let document = json(
        r##"{"openrpc": "1.0.0",
             "components": {"schemas": {
                "A": {"type": "string"},
                "B": {"properties": {"a": {"$ref": "#/components/schemas/A"}},
                      "description": "see #/components/schemas/A and #/components/schemas/B"}
             }}}"##,
    );
    let schema = load_schema(&document).expect("the document has schemas");
    assert_eq!(
        schema,
        Json::Object(vec![
            (
                "$schema".to_string(),
                json(r#""http://json-schema.org/draft-07/schema#""#)
            ),
            (
                "definitions".to_string(),
                json(
                    r##"{"A": {"type": "string"},
                         "B": {"properties": {"a": {"$ref": "#/definitions/A"}},
                               "description": "see #/definitions/A and #/definitions/B"}}"##
                )
            ),
        ])
    );
}

#[test]
fn loading_fails_without_schemas() {
    assert_eq!(load_schema(&json("{}")), Err(LoadError::MissingComponents));
    assert_eq!(load_schema(&json("[]")), Err(LoadError::MissingComponents));
    assert_eq!(
        load_schema(&json(r#"{"components": {}}"#)),
        Err(LoadError::MissingSchemas)
    );
    assert_eq!(
        prepare_schema(&json(r#"{"components": []}"#)),
        Err(LoadError::MissingSchemas)
    );
    assert_eq!(LoadError::MissingComponents.path(), "components");
    assert_eq!(LoadError::MissingSchemas.path(), "components.schemas");
}

#[test]
fn prepared_schema_has_named_variants_with_defaulted_discriminators() {
    let document = json(
        r##"{"components": {"schemas": {
            "BlockRef": {"oneOf": [
                {"title": "ByBlockId", "properties": {"block_id": {"type": "integer"}}, "required": ["block_id"]},
                {"title": "ByFinality", "properties": {"finality": {"type": "string"}}, "required": ["finality"]}
            ]},
            "ViewAccount": {"title": "ViewAccount", "type": "object",
                "properties": {"account_id": {"type": "string"},
                               "request_type": {"const": "view_account", "type": "string"}},
                "required": ["account_id", "request_type"]},
            "ViewAccountRequest": {"title": "ViewAccountRequest",
                "allOf": [{"$ref": "#/components/schemas/BlockRef"}, {"$ref": "#/components/schemas/ViewAccount"}]}
        }}}"##,
    );
    let schema = prepare_schema(&document).unwrap();
    let request = schema
        .get("definitions")
        .unwrap()
        .get("ViewAccountRequest")
        .unwrap();
    assert_eq!(
        titles(request),
        vec!["ViewAccountByBlockId", "ViewAccountByFinality"]
    );
    assert_eq!(request.get("title"), Some(&json(r#""ViewAccountRequest""#)));
    let first = &request.get("oneOf").unwrap().as_array().unwrap()[0];
    assert_eq!(
        first.get("required"),
        Some(&json(r#"["block_id", "account_id"]"#))
    );
    assert_eq!(
        first.get("properties").unwrap().get("request_type"),
        Some(&Json::Object(vec![
            ("type".to_string(), json(r#""string""#)),
            ("enum".to_string(), json(r#"["view_account"]"#)),
            ("default".to_string(), json(r#""view_account""#)),
        ]))
    );
}
