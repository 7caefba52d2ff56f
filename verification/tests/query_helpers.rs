use near_openrpc_client::types::{BlockId, Finality, RpcQueryRequest, StoreKey, SyncCheckpoint};
use near_openrpc_client::{BlockReference, Json};

// The value of `request_type` in the query's wire form.
fn request_type_of(req: &RpcQueryRequest) -> String {
    let json = req.to_json();
    json.get("request_type")
        .expect("request_type should be present")
        .as_str()
        .expect("request_type should be a string")
        .to_string()
}

fn all_block_refs() -> Vec<BlockReference> {
    vec![
        BlockReference::Finality(Finality::Final),
        BlockReference::BlockId(BlockId::BlockHeight(100)),
        BlockReference::SyncCheckpoint(SyncCheckpoint::Genesis),
    ]
}

fn text(s: &str) -> Json {
    Json::String(s.to_string())
}

#[test]
fn block_reference_from_finality() {
    let br: BlockReference = Finality::Final.into();
    assert!(matches!(br, BlockReference::Finality(Finality::Final)));
}

#[test]
fn block_reference_from_block_id() {
    let br: BlockReference = BlockId::BlockHeight(42).into();
    assert!(matches!(
        br,
        BlockReference::BlockId(BlockId::BlockHeight(42))
    ));
}

#[test]
fn block_reference_from_sync_checkpoint() {
    let br: BlockReference = SyncCheckpoint::Genesis.into();
    assert!(matches!(
        br,
        BlockReference::SyncCheckpoint(SyncCheckpoint::Genesis)
    ));
}

#[test]
fn view_account_sets_request_type() {
    for block_ref in all_block_refs() {
        let req = RpcQueryRequest::view_account("near".to_string(), block_ref);
        assert_eq!(request_type_of(&req), "view_account");
    }
}

#[test]
fn view_code_sets_request_type() {
    for block_ref in all_block_refs() {
        let req = RpcQueryRequest::view_code("near".to_string(), block_ref);
        assert_eq!(request_type_of(&req), "view_code");
    }
}

#[test]
fn view_state_sets_request_type() {
    for block_ref in all_block_refs() {
        let req =
            RpcQueryRequest::view_state("near".to_string(), StoreKey(String::new()), block_ref);
        assert_eq!(request_type_of(&req), "view_state");
    }
}

#[test]
fn view_access_key_sets_request_type() {
    for block_ref in all_block_refs() {
        let req = RpcQueryRequest::view_access_key(
            "near".to_string(),
            "ed25519:abc".to_string(),
            block_ref,
        );
        assert_eq!(request_type_of(&req), "view_access_key");
    }
}

#[test]
fn view_access_key_list_sets_request_type() {
    for block_ref in all_block_refs() {
        let req = RpcQueryRequest::view_access_key_list("near".to_string(), block_ref);
        assert_eq!(request_type_of(&req), "view_access_key_list");
    }
}

#[test]
fn view_gas_key_nonces_sets_request_type() {
    for block_ref in all_block_refs() {
        let req = RpcQueryRequest::view_gas_key_nonces(
            "near".to_string(),
            "ed25519:abc".to_string(),
            block_ref,
        );
        assert_eq!(request_type_of(&req), "view_gas_key_nonces");
    }
}

#[test]
fn call_function_sets_request_type() {
    for block_ref in all_block_refs() {
        let req = RpcQueryRequest::call_function(
            "near".to_string(),
            "get_num",
            "e30=".to_string(),
            block_ref,
        );
        assert_eq!(request_type_of(&req), "call_function");
    }
}

#[test]
fn view_global_contract_code_sets_request_type() {
    for block_ref in all_block_refs() {
        let req = RpcQueryRequest::view_global_contract_code("abc123".to_string(), block_ref);
        assert_eq!(request_type_of(&req), "view_global_contract_code");
    }
}

#[test]
fn view_global_contract_code_by_account_id_sets_request_type() {
    for block_ref in all_block_refs() {
        let req =
            RpcQueryRequest::view_global_contract_code_by_account_id("near".to_string(), block_ref);
        assert_eq!(
            request_type_of(&req),
            "view_global_contract_code_by_account_id"
        );
    }
}

#[test]
fn view_account_finality_json_structure() {
    let req = RpcQueryRequest::view_account("near".to_string(), Finality::Final);
    let json = req.to_json();

    assert_eq!(json.get("request_type"), Some(&text("view_account")));
    assert_eq!(json.get("account_id"), Some(&text("near")));
    assert_eq!(json.get("finality"), Some(&text("final")));
    // block_id and sync_checkpoint should not be present
    assert!(json.get("block_id").is_none());
    assert!(json.get("sync_checkpoint").is_none());
}

#[test]
fn view_account_block_id_json_structure() {
    let req = RpcQueryRequest::view_account("near".to_string(), BlockId::BlockHeight(12345));
    let json = req.to_json();

    assert_eq!(json.get("request_type"), Some(&text("view_account")));
    assert_eq!(json.get("account_id"), Some(&text("near")));
    assert_eq!(
        json.get("block_id"),
        Some(&Json::Number("12345".to_string()))
    );
    assert!(json.get("finality").is_none());
    assert!(json.get("sync_checkpoint").is_none());
}

#[test]
fn view_account_sync_checkpoint_json_structure() {
    let req = RpcQueryRequest::view_account("near".to_string(), SyncCheckpoint::EarliestAvailable);
    let json = req.to_json();

    assert_eq!(json.get("request_type"), Some(&text("view_account")));
    assert_eq!(json.get("account_id"), Some(&text("near")));
    assert_eq!(
        json.get("sync_checkpoint"),
        Some(&text("earliest_available"))
    );
    assert!(json.get("finality").is_none());
    assert!(json.get("block_id").is_none());
}

#[test]
fn call_function_json_structure() {
    let req = RpcQueryRequest::call_function(
        "contract.near".to_string(),
        "get_status",
        "e30=".to_string(),
        Finality::Optimistic,
    );
    let json = req.to_json();

    assert_eq!(json.get("request_type"), Some(&text("call_function")));
    assert_eq!(json.get("account_id"), Some(&text("contract.near")));
    assert_eq!(json.get("method_name"), Some(&text("get_status")));
    assert_eq!(json.get("args_base64"), Some(&text("e30=")));
    assert_eq!(json.get("finality"), Some(&text("optimistic")));
}

// The three variants of one kind of query, as the union codec describes them.
fn view_account_variants() -> Vec<near_openrpc_client::variant::VariantInfo> {
    let field = |name: &str, type_str: &str| near_openrpc_client::variant::VariantField {
        name: name.to_string(),
        type_str: type_str.to_string(),
        serde_attrs: Vec::new(),
    };
    [
        ("ViewAccountFinality", "finality", "Finality"),
        ("ViewAccountBlockId", "block_id", "BlockId"),
        (
            "ViewAccountSyncCheckpoint",
            "sync_checkpoint",
            "SyncCheckpoint",
        ),
    ]
    .iter()
    .map(
        |(name, reference, type_str)| near_openrpc_client::variant::VariantInfo {
            name: name.to_string(),
            request_type_const: "view_account".to_string(),
            fields: {
                let mut fields = vec![field("account_id", "AccountId"), field(reference, type_str)];
                fields.sort_by(|a, b| a.name.cmp(&b.name));
                fields
            },
        },
    )
    .collect()
}

#[test]
fn constructed_queries_have_the_wire_form_of_the_union_codec() {
    let variants = view_account_variants();
    assert_eq!(near_openrpc_client::codec::find_conflict(&variants), None);
    for (index, block_ref) in all_block_refs().into_iter().enumerate() {
        let req = RpcQueryRequest::view_account("near".to_string(), block_ref);
        let Json::Object(wire) = req.to_json() else {
            panic!("a query is written as an object");
        };
        let decoded = near_openrpc_client::codec::decode(&variants, &wire)
            .expect("the wire form of a query decodes");
        assert_eq!(decoded.variant, index);
        assert_eq!(
            near_openrpc_client::codec::encode(&variants[index], &decoded.fields),
            Some(wire)
        );
    }
}

#[test]
fn view_state_leaves_the_proof_flag_out() {
    let req = RpcQueryRequest::view_state(
        "near".to_string(),
        StoreKey("AQ==".to_string()),
        BlockId::BlockHeight(7),
    );
    assert_eq!(
        req,
        RpcQueryRequest::ViewStateBlockId {
            account_id: near_openrpc_client::AccountId("near".to_string()),
            block_id: BlockId::BlockHeight(7),
            include_proof: None,
            prefix_base64: StoreKey("AQ==".to_string()),
            request_type: "view_state".to_string(),
        }
    );
    assert_eq!(
        req.to_json(),
        Json::Object(vec![
            ("account_id".to_string(), text("near")),
            ("block_id".to_string(), Json::Number("7".to_string())),
            ("prefix_base64".to_string(), text("AQ==")),
            ("request_type".to_string(), text("view_state")),
        ])
    );
    let with_proof = RpcQueryRequest::ViewStateFinality {
        account_id: near_openrpc_client::AccountId("near".to_string()),
        finality: Finality::NearFinal,
        include_proof: Some(true),
        prefix_base64: StoreKey(String::new()),
        request_type: "something else".to_string(),
    };
    assert_eq!(
        with_proof.to_json(),
        Json::Object(vec![
            ("account_id".to_string(), text("near")),
            ("finality".to_string(), text("near-final")),
            ("include_proof".to_string(), Json::Bool(true)),
            ("prefix_base64".to_string(), text("")),
            ("request_type".to_string(), text("view_state")),
        ])
    );
    assert_eq!(with_proof.kind(), "view_state");
}

#[test]
fn block_is_named_by_height_or_hash() {
    let by_hash = RpcQueryRequest::view_code(
        "near".to_string(),
        BlockId::CryptoHash(near_openrpc_client::CryptoHash("6oVm".to_string())),
    );
    assert_eq!(by_hash.to_json().get("block_id"), Some(&text("6oVm")));
    let by_height = RpcQueryRequest::view_code("near".to_string(), BlockId::BlockHeight(u64::MAX));
    assert_eq!(
        by_height.to_json().get("block_id"),
        Some(&Json::Number("18446744073709551615".to_string()))
    );
}
