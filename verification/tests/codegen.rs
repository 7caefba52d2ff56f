use near_openrpc_client::codec::{decode, encode, UnionValue};
use near_openrpc_client::codegen::{
    elide_const_request_type_fields, extract_request_type_values, generate_deserialize_impl,
    generate_field_extractions, generate_serialize_impl, parse_enum_variants,
    process_enum_request_type, strip_json_schema_docs, DiscriminatorMap,
};
use near_openrpc_client::text::{split_lines, to_chars};
use near_openrpc_client::variant::{VariantField, VariantInfo};
use near_openrpc_client::Json;

const SKIP: &str = "#[serde(default, skip_serializing_if = \"::std::option::Option::is_none\")]";

const EMITTED: &str = r#"/// A query.
#[derive(::serde::Deserialize, ::serde::Serialize, Clone, Debug)]
#[serde(untagged)]
pub enum RpcQueryRequest {
    ViewAccountFinality {
        account_id: AccountId,
        finality: Finality,
        #[serde(default = "defaults::view_account_finality_request_type")]
        request_type: ViewAccountFinalityRequestType,
    },
    ///View the state of a contract.
    ViewStateBlockId {
        account_id: AccountId,
        block_id: BlockId,
        #[serde(default, skip_serializing_if = "::std::option::Option::is_none")]
        include_proof: ::std::option::Option<bool>,
        prefix_base64: StoreKey,
        request_type: ViewStateBlockIdRequestType,
    },
    Plain {
        height: u64,
    },
}
impl ::std::convert::From<&Self> for RpcQueryRequest {
    fn from(value: &RpcQueryRequest) -> Self {
        value.clone()
    }
}
#[derive(::serde::Deserialize, ::serde::Serialize, Clone, Copy, Debug)]
pub enum ViewAccountFinalityRequestType {
    #[serde(rename = "view_account")]
    ViewAccount,
}
#[derive(::serde::Deserialize, ::serde::Serialize, Clone, Copy, Debug)]
pub enum ViewStateBlockIdRequestType {
    #[serde(rename = "view_state")]
    ViewState,
}
#[derive(::serde::Deserialize, ::serde::Serialize, Clone, Copy, Debug)]
pub enum Finality {
    #[serde(rename = "final")]
    Final,
}
"#;

fn field(name: &str, type_str: &str) -> VariantField {
    VariantField {
        name: name.to_string(),
        type_str: type_str.to_string(),
        serde_attrs: Vec::new(),
    }
}

fn optional(name: &str, type_str: &str) -> VariantField {
    VariantField {
        name: name.to_string(),
        type_str: type_str.to_string(),
        serde_attrs: vec![SKIP.to_string()],
    }
}

fn variant(name: &str, literal: &str, fields: Vec<VariantField>) -> VariantInfo {
    VariantInfo {
        name: name.to_string(),
        request_type_const: literal.to_string(),
        fields,
    }
}

fn map_of(pairs: &[(&str, &str)]) -> DiscriminatorMap {
    let mut map = DiscriminatorMap::new();
    for (name, literal) in pairs {
        map.insert(name.to_string(), literal.to_string());
    }
    map
}

fn lines(code: &str) -> Vec<Vec<char>> {
    split_lines(&to_chars(code))
}

fn parsed_variants() -> Vec<VariantInfo> {
    vec![
        variant(
            "ViewAccountFinality",
            "view_account",
            vec![
                field("account_id", "AccountId"),
                field("finality", "Finality"),
            ],
        ),
        variant(
            "ViewStateBlockId",
            "view_state",
            vec![
                field("account_id", "AccountId"),
                field("block_id", "BlockId"),
                optional("include_proof", "::std::option::Option<bool>"),
                field("prefix_base64", "StoreKey"),
            ],
        ),
    ]
}

fn required_extraction(name: &str) -> String {
    format!(
        "                    let {name} = map.get(\"{name}\").cloned().ok_or_else(|| ::serde::de::Error::missing_field(\"{name}\")).and_then(|v| serde_json::from_value(v).map_err(::serde::de::Error::custom))?;\n"
    )
}

fn optional_extraction(name: &str) -> String {
    format!(
        "                    let {name} = map.get(\"{name}\").cloned().map(serde_json::from_value).transpose().map_err(::serde::de::Error::custom)?;\n"
    )
}

const SERIALIZE: &str = r#"impl ::serde::Serialize for RpcQueryRequest {
    fn serialize<S>(&self, serializer: S) -> ::std::result::Result<S::Ok, S::Error>
    where
        S: ::serde::Serializer,
    {
        use ::serde::ser::SerializeMap;
        match self {
            RpcQueryRequest::ViewAccountFinality { account_id, finality } => {
                let mut map = serializer.serialize_map(::std::option::Option::Some(3))?;
            map.serialize_entry("account_id", account_id)?;
            map.serialize_entry("finality", finality)?;
            map.serialize_entry("request_type", "view_account")?;
                map.end()
            }
            RpcQueryRequest::ViewStateBlockId { account_id, block_id, include_proof, prefix_base64 } => {
                let mut map = serializer.serialize_map(::std::option::Option::Some(5))?;
            map.serialize_entry("account_id", account_id)?;
            map.serialize_entry("block_id", block_id)?;
            if include_proof.is_some() {
                map.serialize_entry("include_proof", include_proof)?;
            }
            map.serialize_entry("prefix_base64", prefix_base64)?;
            map.serialize_entry("request_type", "view_state")?;
                map.end()
            }
        }
    }
}"#;

fn deserialize_with(arms: &str, known: &str) -> String {
    format!(
        r#"impl<'de> ::serde::Deserialize<'de> for RpcQueryRequest {{
    fn deserialize<D>(deserializer: D) -> ::std::result::Result<Self, D::Error>
    where
        D: ::serde::Deserializer<'de>,
    {{
        let map: serde_json::Map<::std::string::String, serde_json::Value> =
            serde_json::Map::deserialize(deserializer)?;

        let request_type = map
            .get("request_type")
            .and_then(|v| v.as_str())
            .ok_or_else(|| ::serde::de::Error::missing_field("request_type"))?;

        match request_type {{
{arms}                other => Err(::serde::de::Error::unknown_variant(
                    other,
                    &[{known}],
                )),
        }}
    }}
}}"#
    )
}

fn expected_deserialize() -> String {
    let arms = format!(
        "                \"view_account\" => {{\n{}{}                    Ok(RpcQueryRequest::ViewAccountFinality {{ account_id, finality }})\n                }}\n                \"view_state\" => {{\n{}{}{}{}                    Ok(RpcQueryRequest::ViewStateBlockId {{ account_id, block_id, include_proof, prefix_base64 }})\n                }}\n",
        required_extraction("account_id"),
        required_extraction("finality"),
        required_extraction("account_id"),
        required_extraction("block_id"),
        optional_extraction("include_proof"),
        required_extraction("prefix_base64"),
    );
    deserialize_with(&arms, "\"view_account\", \"view_state\"")
}

#[test]
fn marker_values_are_those_of_the_discriminator_types() {
    let map = extract_request_type_values(EMITTED);
    assert_eq!(
        map.get("ViewAccountFinalityRequestType"),
        Some(&"view_account".to_string())
    );
    assert_eq!(
        map.get("ViewStateBlockIdRequestType"),
        Some(&"view_state".to_string())
    );
    // Not a discriminator type: its name does not end in `RequestType`.
    assert_eq!(map.get("Finality"), None);
    assert_eq!(map.entries.len(), 2);
}

#[test]
fn marker_value_is_looked_for_in_the_four_lines_after_the_declaration() {
    let code = "pub enum ARequestType {\n\n\n\n    #[serde(rename = \"a\")]\n    A,\n}\n\
                pub enum BRequestType {\n\n\n\n\n    #[serde(rename = \"b\")]\n    B,\n}\n\
                  pub enum CRequestType {  \n  #[serde(rename = \"first\")]\n  #[serde(rename = \"second\")]\n}\n\
                pub enum CRequestType {\n#[serde(rename = \"later\")]\n}\n\
                pub enum DRequestType{\n#[serde(rename = \"d\")]\n}\n\
                pub enum ERequestType {\n#[serde(rename = \"e\", other)]\n}";
    let map = extract_request_type_values(code);
    assert_eq!(map.get("ARequestType"), Some(&"a".to_string()));
    assert_eq!(map.get("BRequestType"), None);
    assert_eq!(map.get("CRequestType"), Some(&"later".to_string()));
    assert_eq!(map.get("DRequestType"), None);
    assert_eq!(map.get("ERequestType"), None);
    assert_eq!(
        map.entries,
        vec![
            ("ARequestType".to_string(), "a".to_string()),
            ("CRequestType".to_string(), "later".to_string()),
        ]
    );
}

#[test]
fn variants_are_parsed_without_their_discriminator_fields() {
    let map = extract_request_type_values(EMITTED);
    let source = lines(EMITTED);
    let variants = parse_enum_variants(&source, 4, 23, &map);
    assert_eq!(variants, parsed_variants());
    // The same through a map built by hand.
    let by_hand = map_of(&[
        ("ViewStateBlockIdRequestType", "view_state"),
        ("ViewAccountFinalityRequestType", "view_account"),
    ]);
    assert_eq!(
        parse_enum_variants(&source, 4, 23, &by_hand),
        parsed_variants()
    );
    // Nothing lies between a line and itself, or after the end.
    assert_eq!(parse_enum_variants(&source, 4, 4, &map), vec![]);
    assert_eq!(parse_enum_variants(&source, 30, 23, &map), vec![]);
}

#[test]
fn a_field_is_the_discriminator_by_its_type() {
    let source = lines(
        "    First {\n        tag: KindRequestType,\n        request_type: String,\n    },\n    Second {\n        request_type: ARequestType,\n        request_type: BRequestType,\n        x: u8,,\n    }\n    Third {\n        y: u8\n",
    );
    let map = map_of(&[
        ("KindRequestType", "kind"),
        ("ARequestType", "a"),
        ("BRequestType", "b"),
    ]);
    assert_eq!(
        parse_enum_variants(&source, 0, source.len(), &map),
        vec![
            variant("First", "kind", vec![field("request_type", "String")]),
            variant("Second", "b", vec![field("x", "u8")]),
        ]
    );
}

#[test]
fn attributes_belong_to_the_field_that_follows_and_may_run_over_lines() {
    let source = lines(
        "    V {\n        #[serde(\n            default,\n            skip_serializing_if = \"x\"\n        )]\n        #[serde(rename = \"b\")]\n        a: A,\n        #[serde(default)]\n        request_type: TRequestType,\n        c: C,\n    },\n",
    );
    let map = map_of(&[("TRequestType", "t")]);
    let variants = parse_enum_variants(&source, 0, source.len(), &map);
    assert_eq!(
        variants,
        vec![variant(
            "V",
            "t",
            vec![
                VariantField {
                    name: "a".to_string(),
                    type_str: "A".to_string(),
                    serde_attrs: vec![
                        "#[serde( default, skip_serializing_if = \"x\" )]".to_string(),
                        "#[serde(rename = \"b\")]".to_string(),
                    ],
                },
                field("c", "C"),
            ]
        )]
    );
    assert!(variants[0].fields[0].omits_when_absent());
    assert!(!variants[0].fields[1].omits_when_absent());
}

#[test]
fn an_attribute_that_is_not_closed_runs_to_the_end() {
    let source = lines(
        "    V {\n        request_type: TRequestType,\n        #[serde(\n        a: A,\n    },",
    );
    let map = map_of(&[("TRequestType", "t")]);
    assert_eq!(
        parse_enum_variants(&source, 0, source.len(), &map),
        vec![variant("V", "t", vec![])]
    );
}

#[test]
fn encoder_writes_the_fields_and_then_the_discriminator() {
    assert_eq!(
        generate_serialize_impl("RpcQueryRequest", &parsed_variants()),
        SERIALIZE
    );
}

#[test]
fn encoder_of_a_union_without_variants_has_no_arms() {
    assert_eq!(
        generate_serialize_impl("E", &vec![]),
        "impl ::serde::Serialize for E {\n    fn serialize<S>(&self, serializer: S) -> ::std::result::Result<S::Ok, S::Error>\n    where\n        S: ::serde::Serializer,\n    {\n        use ::serde::ser::SerializeMap;\n        match self {\n        }\n    }\n}"
    );
    assert_eq!(
        generate_serialize_impl("E", &vec![variant("Unit", "u", vec![])]),
        "impl ::serde::Serialize for E {\n    fn serialize<S>(&self, serializer: S) -> ::std::result::Result<S::Ok, S::Error>\n    where\n        S: ::serde::Serializer,\n    {\n        use ::serde::ser::SerializeMap;\n        match self {\n            E::Unit {  } => {\n                let mut map = serializer.serialize_map(::std::option::Option::Some(1))?;\n            map.serialize_entry(\"request_type\", \"u\")?;\n                map.end()\n            }\n        }\n    }\n}"
    );
}

#[test]
fn field_extractions_fail_on_missing_required_fields_only() {
    let fields = vec![field("a", "A"), optional("b", "B")];
    assert_eq!(
        generate_field_extractions(&fields, "Ignored"),
        format!("{}{}", required_extraction("a"), optional_extraction("b"))
    );
    assert_eq!(generate_field_extractions(&vec![], "Ignored"), "");
}

#[test]
fn decoder_has_an_arm_for_each_literal_in_order() {
    assert_eq!(
        generate_deserialize_impl("RpcQueryRequest", &parsed_variants()),
        expected_deserialize()
    );
    // The order of the arms is that of the literals, not of the variants.
    let mut reversed = parsed_variants();
    reversed.reverse();
    assert_eq!(
        generate_deserialize_impl("RpcQueryRequest", &reversed),
        expected_deserialize()
    );
    assert_eq!(
        generate_deserialize_impl("RpcQueryRequest", &vec![]),
        deserialize_with("", "")
    );
}

#[test]
fn decoder_tells_variants_of_one_literal_apart_by_their_fields() {
    let variants = vec![
        variant(
            "ByBlock",
            "q",
            vec![field("account_id", "A"), field("block_id", "B")],
        ),
        variant(
            "ByBoth",
            "q",
            vec![
                field("account_id", "A"),
                field("block_id", "B"),
                field("finality", "F"),
            ],
        ),
        variant("Bare", "q", vec![field("account_id", "A")]),
        variant(
            "ByCheckpoint",
            "q",
            vec![field("account_id", "A"), field("sync", "S")],
        ),
    ];
    let arms = format!(
        "                \"q\" => {{\n                    if map.contains_key(\"block_id\") {{\n{a}{b}                        Ok(RpcQueryRequest::ByBlock {{ account_id, block_id }})\n                    }} else if map.contains_key(\"block_id\") && map.contains_key(\"finality\") {{\n{a}{b}{f}                        Ok(RpcQueryRequest::ByBoth {{ account_id, block_id, finality }})\n                    }} else if true {{\n{a}                        Ok(RpcQueryRequest::Bare {{ account_id }})\n                    }} else {{\n{a}{s}                        Ok(RpcQueryRequest::ByCheckpoint {{ account_id, sync }})\n                    }}\n                }}\n",
        a = required_extraction("account_id"),
        b = required_extraction("block_id"),
        f = required_extraction("finality"),
        s = required_extraction("sync"),
    );
    assert_eq!(
        generate_deserialize_impl("RpcQueryRequest", &variants),
        deserialize_with(&arms, "\"q\"")
    );
}

#[test]
fn declaration_is_rewritten_and_followed_by_its_codec() {
    let map = extract_request_type_values(EMITTED);
    let rewritten = process_enum_request_type(EMITTED, "RpcQueryRequest", &map)
        .expect("the union has variants with discriminator fields");
    let expected = format!(
        "/// A query.\n#[derive(Clone, Debug)]\npub enum RpcQueryRequest {{\n    ViewAccountFinality {{\n        account_id: AccountId,\n        finality: Finality,\n    }},\n    ViewStateBlockId {{\n        account_id: AccountId,\n        block_id: BlockId,\n        include_proof: ::std::option::Option<bool>,\n        prefix_base64: StoreKey,\n    }},\n}}\n\n{}\n\n{}\n{}",
        SERIALIZE,
        expected_deserialize(),
        EMITTED[EMITTED.find("impl ::std::convert::From").unwrap()..].trim_end_matches('\n'),
    );
    assert_eq!(rewritten, expected);
    assert!(syn::parse_file(&rewritten).is_ok());
}

#[test]
fn derive_attribute_loses_the_codec_in_any_position() {
    for (derive, expected) in [
        (
            "#[derive(::serde::Deserialize, ::serde::Serialize, Clone)]",
            "#[derive(Clone)]",
        ),
        (
            "#[derive(Clone, ::serde::Deserialize, ::serde::Serialize)]",
            "#[derive(Clone)]",
        ),
        (
            "#[derive(::serde::Serialize, Clone, ::serde::Deserialize)]",
            "#[derive(Clone)]",
        ),
        ("#[derive(::serde::Serialize)]", "#[derive()]"),
        ("#[derive(Clone, Debug)]", "#[derive(Clone, Debug)]"),
    ] {
        let code = format!(
            "  {derive}\n\n  // a comment\n  #[serde(untagged)]\n  #[allow(missing_docs)]\n  pub enum E {{\n    V {{\n        request_type: TRequestType,\n    }},\n  }}\nafter"
        );
        let rewritten = process_enum_request_type(&code, "E", &map_of(&[("TRequestType", "t")]))
            .expect("a rewritten declaration");
        let head = format!(
            "  {expected}\n\n  // a comment\n  #[allow(missing_docs)]\n  pub enum E {{\n    V {{\n    }},\n}}\n\nimpl ::serde::Serialize for E {{"
        );
        assert!(rewritten.starts_with(&head), "{rewritten}");
        assert!(rewritten.ends_with("\n}\nafter"), "{rewritten}");
    }
}

#[test]
fn declaration_that_cannot_be_rewritten_is_skipped() {
    let map = map_of(&[("TRequestType", "t")]);
    let body = "pub enum E {\n    V {\n        request_type: TRequestType,\n    },\n}";
    // The union is not declared.
    assert_eq!(
        process_enum_request_type(&format!("#[derive(Clone)]\n{body}"), "F", &map),
        None
    );
    // No derive attribute above the declaration.
    assert_eq!(process_enum_request_type(body, "E", &map), None);
    assert_eq!(
        process_enum_request_type(&format!("#[derive(Clone)]\nstruct S;\n{body}"), "E", &map),
        None
    );
    // No variant with a discriminator field.
    assert_eq!(
        process_enum_request_type(
            &format!("#[derive(Clone)]\n{body}"),
            "E",
            &DiscriminatorMap::new()
        ),
        None
    );
    // The declaration is not closed.
    assert_eq!(
        process_enum_request_type(
            "#[derive(Clone)]\npub enum E {\n    V {\n        request_type: TRequestType,\n    },",
            "E",
            &map
        ),
        None
    );
    assert!(process_enum_request_type(&format!("#[derive(Clone)]\n{body}"), "E", &map).is_some());
}

#[test]
fn elision_rewrites_the_designated_unions_and_nothing_else() {
    let elided = elide_const_request_type_fields(EMITTED);
    let map = extract_request_type_values(EMITTED);
    assert_eq!(
        Some(elided.clone()),
        process_enum_request_type(EMITTED, "RpcQueryRequest", &map)
    );
    assert!(!elided.contains("request_type: ViewAccountFinalityRequestType"));
    assert!(elided.contains("pub enum ViewAccountFinalityRequestType {"));

    let other = "#[derive(::serde::Serialize)]\npub enum SomethingElse {\n    V {\n        request_type: ViewAccountFinalityRequestType,\n    },\n}\n";
    assert_eq!(elide_const_request_type_fields(other), other);
    assert_eq!(elide_const_request_type_fields(""), "");

    let both = format!(
        "{EMITTED}#[derive(::serde::Deserialize, ::serde::Serialize, Clone, Debug)]\n#[serde(untagged)]\npub enum QueryRequest {{\n    CallFunction {{\n        method_name: ::std::string::String,\n        request_type: ViewStateBlockIdRequestType,\n    }},\n}}\n"
    );
    let elided = elide_const_request_type_fields(&both);
    assert!(elided.contains("impl ::serde::Serialize for RpcQueryRequest {"));
    assert!(elided.contains("impl<'de> ::serde::Deserialize<'de> for QueryRequest {"));
    assert!(elided.contains("            QueryRequest::CallFunction { method_name } => {"));
    assert!(!elided.contains("#[serde(untagged)]"));
    assert!(syn::parse_file(&elided).is_ok());
}

#[test]
fn schema_blocks_are_dropped_and_code_fences_ignored() {
    let code = "/// A type.\n///\n/// <details><summary>JSON schema</summary>\n///\n/// ```json\n/// {}\n/// ```\n/// </details>\npub struct A;\n/// ```\n/// let a = A;\n///```\n  ```  \n/// ```rust\n/// <details>\n/// </details>\npub struct B;\r\n";
    assert_eq!(
        strip_json_schema_docs(code),
        "/// A type.\n///\npub struct A;\n/// ```ignore\n/// let a = A;\n///```ignore\n  ```ignore  \n/// ```rust\n/// <details>\n/// </details>\npub struct B;"
    );
    assert_eq!(strip_json_schema_docs(""), "");
    // A block that is never closed swallows the rest.
    assert_eq!(
        strip_json_schema_docs("a\n/// <details> JSON schema\n/// </details\nb"),
        "a"
    );
}

#[test]
fn variant_record_serializes_with_its_literal_and_decodes_back() {
    let code = "#[derive(::serde::Deserialize, ::serde::Serialize)]\npub enum RpcQueryRequest {\n    ViewAccount {\n        account_id: String,\n        finality: String,\n        request_type: ViewAccountRequestType,\n    },\n}\npub enum ViewAccountRequestType {\n    #[serde(rename = \"view_account\")]\n    ViewAccount,\n}\n";
    let map = extract_request_type_values(code);
    let source = lines(code);
    let variants = parse_enum_variants(&source, 2, 7, &map);
    assert_eq!(
        variants,
        vec![variant(
            "ViewAccount",
            "view_account",
            vec![field("account_id", "String"), field("finality", "String")]
        )]
    );
    let account = Json::String("alice.near".to_string());
    let finality = Json::String("final".to_string());
    let values = vec![Some(account.clone()), Some(finality.clone())];
    let wire = encode(&variants[0], &values).unwrap();
    assert_eq!(
        wire,
        vec![
            ("account_id".to_string(), account),
            ("finality".to_string(), finality),
            (
                "request_type".to_string(),
                Json::String("view_account".to_string())
            ),
        ]
    );
    assert_eq!(
        decode(&variants, &wire),
        Ok(UnionValue {
            variant: 0,
            fields: values
        })
    );
    let elided = elide_const_request_type_fields(code);
    assert!(elided.contains(
        "    ViewAccount {\n        account_id: String,\n        finality: String,\n    },\n}"
    ));
    assert!(
        elided.contains("            map.serialize_entry(\"request_type\", \"view_account\")?;")
    );
}
