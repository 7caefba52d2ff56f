use near_openrpc_client::codec::{
    decode, encode, find_conflict, literal_is_separable, select_variant, DecodeError, UnionValue,
};
use near_openrpc_client::variant::{
    distinguishing_fields, known_literals, variants_with_literal, VariantField, VariantInfo,
};
use near_openrpc_client::Json;

fn field(name: &str, type_str: &str) -> VariantField {
    VariantField {
        name: name.to_string(),
        type_str: type_str.to_string(),
        serde_attrs: Vec::new(),
    }
}

fn optional(name: &str, type_str: &str) -> VariantField {
    VariantField {
        name: name.to_string(),
        type_str: type_str.to_string(),
        serde_attrs: vec![
            "#[serde(default, skip_serializing_if = \"::std::option::Option::is_none\")]"
                .to_string(),
        ],
    }
}

fn variant(name: &str, literal: &str, fields: Vec<VariantField>) -> VariantInfo {
    VariantInfo {
        name: name.to_string(),
        request_type_const: literal.to_string(),
        fields,
    }
}

fn text(s: &str) -> Json {
    Json::String(s.to_string())
}

fn entry(key: &str, value: Json) -> (String, Json) {
    (key.to_string(), value)
}

// A union in the shape of the protocol's queries: three ways of naming the
// block for each kind of query.
fn queries() -> Vec<VariantInfo> {
    vec![
        variant(
            "ViewStateBlockId",
            "view_state",
            vec![
                field("account_id", "AccountId"),
                field("block_id", "BlockId"),
                optional("include_proof", "::std::option::Option<bool>"),
                field("prefix_base64", "StoreKey"),
            ],
        ),
        variant(
            "ViewAccountBlockId",
            "view_account",
            vec![
                field("account_id", "AccountId"),
                field("block_id", "BlockId"),
            ],
        ),
        variant(
            "ViewAccountFinality",
            "view_account",
            vec![
                field("account_id", "AccountId"),
                field("finality", "Finality"),
            ],
        ),
        variant(
            "ViewAccountSyncCheckpoint",
            "view_account",
            vec![
                field("account_id", "AccountId"),
                field("sync_checkpoint", "SyncCheckpoint"),
            ],
        ),
        variant("Status", "status", vec![]),
    ]
}

#[test]
fn encoded_variant_ends_with_its_discriminator() {
    let variants = queries();
    let wire = encode(&variants[2], &vec![Some(text("near")), Some(text("final"))]).unwrap();
    assert_eq!(
        wire,
        vec![
            entry("account_id", text("near")),
            entry("finality", text("final")),
            entry("request_type", text("view_account")),
        ]
    );
    let empty = encode(&variants[4], &vec![]).unwrap();
    assert_eq!(empty, vec![entry("request_type", text("status"))]);
}

#[test]
fn decoding_accepts_the_encoded_payload_back() {
    let variants = queries();
    let values = vec![Some(text("near")), Some(text("final"))];
    let wire = encode(&variants[2], &values).unwrap();
    assert_eq!(
        decode(&variants, &wire),
        Ok(UnionValue {
            variant: 2,
            fields: values
        })
    );
}

#[test]
fn every_variant_round_trips_with_and_without_optional_fields() {
    let variants = queries();
    let samples: Vec<(usize, Vec<Option<Json>>)> = vec![
        (
            0,
            vec![
                Some(text("near")),
                Some(Json::Number("7".to_string())),
                Some(Json::Bool(true)),
                Some(text("")),
            ],
        ),
        (
            0,
            vec![
                Some(text("near")),
                Some(text("6oVmAw")),
                None,
                Some(text("AQ==")),
            ],
        ),
        (
            1,
            vec![Some(text("a")), Some(Json::Number("1".to_string()))],
        ),
        (2, vec![Some(text("a")), Some(text("optimistic"))]),
        (3, vec![Some(text("a")), Some(text("genesis"))]),
        (4, vec![]),
    ];
    for (index, values) in samples {
        let wire = encode(&variants[index], &values).expect("the values fit the variant");
        assert_eq!(
            wire.last(),
            Some(&entry(
                "request_type",
                text(&variants[index].request_type_const)
            ))
        );
        assert_eq!(
            decode(&variants, &wire),
            Ok(UnionValue {
                variant: index,
                fields: values
            })
        );
    }
}

#[test]
fn absent_optional_field_is_left_out_and_decodes_to_no_value() {
    let variants = queries();
    let wire = encode(
        &variants[0],
        &vec![Some(text("near")), Some(text("h")), None, Some(text("p"))],
    )
    .unwrap();
    assert_eq!(
        wire,
        vec![
            entry("account_id", text("near")),
            entry("block_id", text("h")),
            entry("prefix_base64", text("p")),
            entry("request_type", text("view_state")),
        ]
    );
    let decoded = decode(&variants, &wire).unwrap();
    assert_eq!(decoded.fields[2], None);
}

#[test]
fn values_that_do_not_fit_the_variant_are_not_encoded() {
    let variants = queries();
    // One value too few.
    assert_eq!(encode(&variants[2], &vec![Some(text("near"))]), None);
    // One value too many.
    assert_eq!(encode(&variants[4], &vec![None]), None);
    // A required field without a value.
    assert_eq!(encode(&variants[2], &vec![Some(text("near")), None]), None);
}

#[test]
fn discriminator_cannot_be_overridden_by_a_field() {
    let odd = variant(
        "Odd",
        "registered",
        vec![field("request_type", "String"), field("x", "String")],
    );
    let wire = encode(&odd, &vec![Some(text("supplied")), Some(text("1"))]).unwrap();
    assert_eq!(
        wire.last(),
        Some(&entry("request_type", text("registered")))
    );
    assert_eq!(
        Json::Object(wire).get("request_type"),
        Some(&text("registered"))
    );
}

#[test]
fn siblings_are_told_apart_by_their_distinguishing_fields() {
    let variants = queries();
    let by_block = vec![
        entry("block_id", Json::Number("5".to_string())),
        entry("account_id", text("near")),
        entry("request_type", text("view_account")),
    ];
    let by_finality = vec![
        entry("request_type", text("view_account")),
        entry("finality", text("final")),
        entry("account_id", text("near")),
    ];
    let by_checkpoint = vec![
        entry("account_id", text("near")),
        entry("sync_checkpoint", text("genesis")),
        entry("request_type", text("view_account")),
    ];
    assert_eq!(
        select_variant(&variants, "view_account", &by_block),
        Some(1)
    );
    assert_eq!(
        select_variant(&variants, "view_account", &by_finality),
        Some(2)
    );
    assert_eq!(
        select_variant(&variants, "view_account", &by_checkpoint),
        Some(3)
    );
    assert_eq!(decode(&variants, &by_block).unwrap().variant, 1);
    assert_eq!(decode(&variants, &by_finality).unwrap().variant, 2);
    assert_eq!(decode(&variants, &by_checkpoint).unwrap().variant, 3);
    let group = variants_with_literal(&variants, "view_account");
    assert_eq!(group, vec![1, 2, 3]);
    assert_eq!(
        distinguishing_fields(&variants, &group, 1),
        vec!["block_id"]
    );
    assert_eq!(
        distinguishing_fields(&variants, &group, 2),
        vec!["finality"]
    );
    assert_eq!(
        distinguishing_fields(&variants, &group, 3),
        vec!["sync_checkpoint"]
    );
}

#[test]
fn last_sibling_is_the_fallback_and_a_variant_without_distinguishing_fields_catches_all() {
    let variants = queries();
    // None of the distinguishing fields: the last variant of the literal is
    // selected, and its required field is found missing.
    let bare = vec![
        entry("account_id", text("near")),
        entry("request_type", text("view_account")),
    ];
    assert_eq!(select_variant(&variants, "view_account", &bare), Some(3));
    assert_eq!(
        decode(&variants, &bare),
        Err(DecodeError::MissingField {
            field: "sync_checkpoint".to_string()
        })
    );
    // A later variant with a superset of an earlier variant's fields is
    // never reached: the earlier one has no distinguishing field.
    let overlapping = vec![
        variant("Narrow", "q", vec![field("a", "A")]),
        variant("Wide", "q", vec![field("a", "A"), field("b", "B")]),
    ];
    let wide = encode(&overlapping[1], &vec![Some(text("1")), Some(text("2"))]).unwrap();
    assert_eq!(select_variant(&overlapping, "q", &wide), Some(0));
    assert_eq!(
        decode(&overlapping, &wide),
        Ok(UnionValue {
            variant: 0,
            fields: vec![Some(text("1"))]
        })
    );
}

#[test]
fn payload_without_discriminator_fails() {
    let variants = queries();
    assert_eq!(
        decode(&variants, &vec![entry("account_id", text("near"))]),
        Err(DecodeError::MissingDiscriminator)
    );
    assert_eq!(
        decode(
            &variants,
            &vec![entry("request_type", Json::Number("1".to_string()))]
        ),
        Err(DecodeError::MissingDiscriminator)
    );
    assert_eq!(
        decode(&variants, &vec![]),
        Err(DecodeError::MissingDiscriminator)
    );
}

#[test]
fn unknown_literal_fails_with_the_known_literals_in_order() {
    let variants = queries();
    assert_eq!(
        decode(&variants, &vec![entry("request_type", text("view_code"))]),
        Err(DecodeError::UnknownVariant {
            literal: "view_code".to_string(),
            known: vec![
                "status".to_string(),
                "view_account".to_string(),
                "view_state".to_string()
            ],
        })
    );
    assert_eq!(select_variant(&variants, "view_code", &vec![]), None);
    assert_eq!(
        known_literals(&variants),
        vec!["status", "view_account", "view_state"]
    );
    assert_eq!(known_literals(&vec![]), Vec::<String>::new());
}

#[test]
fn known_literals_follow_the_order_of_their_characters() {
    let variants: Vec<VariantInfo> = ["b", "ab", "a", "B", "b", "", "abc", "aa"]
        .iter()
        .map(|literal| variant("V", literal, vec![]))
        .collect();
    assert_eq!(
        known_literals(&variants),
        vec!["", "B", "a", "aa", "ab", "abc", "b"]
    );
}

#[test]
fn missing_required_field_fails_with_the_first_such_field() {
    let variants = queries();
    assert_eq!(
        decode(
            &variants,
            &vec![
                entry("request_type", text("view_state")),
                entry("include_proof", Json::Bool(false)),
            ]
        ),
        Err(DecodeError::MissingField {
            field: "account_id".to_string()
        })
    );
    assert_eq!(
        decode(
            &variants,
            &vec![
                entry("request_type", text("view_state")),
                entry("account_id", text("near")),
                entry("block_id", Json::Null),
            ]
        ),
        Err(DecodeError::MissingField {
            field: "prefix_base64".to_string()
        })
    );
}

#[test]
fn later_entries_of_a_payload_take_precedence() {
    let variants = queries();
    let payload = vec![
        entry("request_type", text("view_code")),
        entry("account_id", text("first")),
        entry("finality", text("final")),
        entry("account_id", text("second")),
        entry("request_type", text("view_account")),
    ];
    assert_eq!(
        decode(&variants, &payload),
        Ok(UnionValue {
            variant: 2,
            fields: vec![Some(text("second")), Some(text("final"))]
        })
    );
}

#[test]
fn field_is_left_out_when_absent_only_where_an_attribute_says_so() {
    assert!(optional("a", "A").omits_when_absent());
    assert!(!field("a", "A").omits_when_absent());
    let renamed = VariantField {
        name: "a".to_string(),
        type_str: "A".to_string(),
        serde_attrs: vec!["#[serde(rename = \"b\")]".to_string()],
    };
    assert!(!renamed.omits_when_absent());
    assert!(variant("V", "v", vec![field("a", "A")]).has_field("a"));
    assert!(!variant("V", "v", vec![field("a", "A")]).has_field("b"));
}

#[test]
fn variants_with_fields_of_their_own_can_be_told_apart() {
    let variants = queries();
    assert_eq!(find_conflict(&variants), None);
    for literal in ["status", "view_account", "view_state", "unknown"] {
        assert!(literal_is_separable(&variants, literal), "{literal}");
    }
    assert_eq!(find_conflict(&vec![]), None);
}

#[test]
fn variants_that_cannot_be_told_apart_are_found() {
    // The first variant has no distinguishing field.
    let overlapping = vec![
        variant("Other", "z", vec![]),
        variant("Narrow", "q", vec![field("a", "A")]),
        variant("Wide", "q", vec![field("a", "A"), field("b", "B")]),
        variant("Same", "b", vec![field("x", "X")]),
        variant("SameAgain", "b", vec![field("x", "X")]),
    ];
    assert_eq!(find_conflict(&overlapping), Some("b".to_string()));
    assert!(!literal_is_separable(&overlapping, "q"));
    assert!(literal_is_separable(&overlapping, "z"));
    // In the other order the wide variant comes first and is set apart.
    let ordered = vec![
        variant("Wide", "q", vec![field("a", "A"), field("b", "B")]),
        variant("Narrow", "q", vec![field("a", "A")]),
    ];
    assert_eq!(find_conflict(&ordered), None);
    // The earlier variant may leave its only distinguishing field out.
    let unsure = vec![
        variant("Maybe", "q", vec![optional("a", "A")]),
        variant("Last", "q", vec![field("b", "B")]),
    ];
    assert_eq!(find_conflict(&unsure), Some("q".to_string()));
    // The last variant may leave out what it likes.
    let fine = vec![
        variant("First", "q", vec![field("b", "B")]),
        variant("Maybe", "q", vec![optional("a", "A")]),
    ];
    assert_eq!(find_conflict(&fine), None);
    // A field called like the discriminator sets nothing apart.
    let shadowed = vec![
        variant("First", "q", vec![field("request_type", "String")]),
        variant("Last", "q", vec![]),
    ];
    assert_eq!(find_conflict(&shadowed), Some("q".to_string()));
}
