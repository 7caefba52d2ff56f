use near_openrpc_client::client::{
    parse_response, NearRpcClient, ResponseError, RpcError, RpcErrorCause,
};
use near_openrpc_client::Json;

fn convert(value: &serde_json::Value) -> Json {
    match value {
        serde_json::Value::Null => Json::Null,
        serde_json::Value::Bool(b) => Json::Bool(*b),
        serde_json::Value::Number(n) => Json::Number(n.to_string()),
        serde_json::Value::String(s) => Json::String(s.clone()),
        serde_json::Value::Array(items) => Json::Array(items.iter().map(convert).collect()),
        serde_json::Value::Object(map) => Json::Object(
            map.iter()
                .map(|(key, value)| (key.clone(), convert(value)))
                .collect(),
        ),
    }
}

fn json(text: &str) -> Json {
    convert(&serde_json::from_str(text).expect("the test's JSON is well formed"))
}

fn error_named(name: Option<&str>) -> RpcError {
    RpcError {
        code: -32000,
        message: "Server error".to_string(),
        data: None,
        name: name.map(str::to_string),
        cause: None,
    }
}

#[test]
fn test_client_creation() {
    let client = NearRpcClient::mainnet();
    assert_eq!(client.url, "https://rpc.mainnet.near.org");

    let client = NearRpcClient::testnet();
    assert_eq!(client.url, "https://rpc.testnet.near.org");

    let client = NearRpcClient::new("https://custom.rpc.near.org");
    assert_eq!(client.url, "https://custom.rpc.near.org");
}

#[test]
fn other_networks_have_their_addresses() {
    assert_eq!(NearRpcClient::betanet().url, "https://rpc.betanet.near.org");
    assert_eq!(NearRpcClient::local().url, "http://localhost:3030");
    assert_eq!(NearRpcClient::local().request_id, 1);
}

#[test]
fn requests_are_numbered_from_one() {
    let mut client = NearRpcClient::mainnet();
    assert_eq!(
        client.status(),
        Json::Object(vec![
            ("jsonrpc".to_string(), Json::String("2.0".to_string())),
            ("id".to_string(), Json::Number("1".to_string())),
            ("method".to_string(), Json::String("status".to_string())),
            ("params".to_string(), Json::Object(vec![])),
        ])
    );
    let request = json(r#"{"finality": "final"}"#);
    assert_eq!(
        client.block(request.clone()),
        Json::Object(vec![
            ("jsonrpc".to_string(), Json::String("2.0".to_string())),
            ("id".to_string(), Json::Number("2".to_string())),
            ("method".to_string(), Json::String("block".to_string())),
            ("params".to_string(), request),
        ])
    );
    assert_eq!(client.next_id(), 3);
    assert_eq!(client.next_id(), 4);
    assert_eq!(client.request_id, 5);
    assert_eq!(client.url, "https://rpc.mainnet.near.org");
}

#[test]
fn request_numbers_start_over_after_the_last() {
    let mut client = NearRpcClient {
        url: String::new(),
        request_id: u64::MAX,
    };
    assert_eq!(
        client.health().get("id"),
        Some(&Json::Number("18446744073709551615".to_string()))
    );
    assert_eq!(client.next_id(), 0);
    assert_eq!(client.next_id(), 1);
}

#[test]
fn each_method_has_its_name_on_the_wire() {
    let mut client = NearRpcClient::local();
    let p = Json::Null;
    let sent = vec![
        (client.status(), "status"),
        (client.health(), "health"),
        (client.network_info(), "network_info"),
        (client.block(p.clone()), "block"),
        (client.chunk(p.clone()), "chunk"),
        (client.gas_price(p.clone()), "gas_price"),
        (client.view_account(p.clone()), "EXPERIMENTAL_view_account"),
        (client.view_code(p.clone()), "EXPERIMENTAL_view_code"),
        (client.view_state(p.clone()), "EXPERIMENTAL_view_state"),
        (
            client.view_access_key(p.clone()),
            "EXPERIMENTAL_view_access_key",
        ),
        (
            client.view_access_key_list(p.clone()),
            "EXPERIMENTAL_view_access_key_list",
        ),
        (
            client.call_function(p.clone()),
            "EXPERIMENTAL_call_function",
        ),
        (client.broadcast_tx_async(p.clone()), "broadcast_tx_async"),
        (client.broadcast_tx_commit(p.clone()), "broadcast_tx_commit"),
        (client.send_tx(p.clone()), "send_tx"),
        (client.tx(p.clone()), "tx"),
        (client.validators(p.clone()), "validators"),
        (
            client.validators_ordered(p.clone()),
            "EXPERIMENTAL_validators_ordered",
        ),
        (client.light_client_proof(p.clone()), "light_client_proof"),
        (
            client.next_light_client_block(p.clone()),
            "next_light_client_block",
        ),
        (
            client.light_client_block_proof(p.clone()),
            "light_client_block_proof",
        ),
        (
            client.changes_in_block(p.clone()),
            "EXPERIMENTAL_changes_in_block",
        ),
        (client.changes(p.clone()), "EXPERIMENTAL_changes"),
        (client.block_effects(p.clone()), "block_effects"),
        (
            client.protocol_config(p.clone()),
            "EXPERIMENTAL_protocol_config",
        ),
        (client.genesis_config(), "genesis_config"),
        (client.client_config(), "client_config"),
        (client.receipt(p.clone()), "EXPERIMENTAL_receipt"),
        (client.maintenance_windows(), "maintenance_windows"),
        (
            client.split_storage_info(),
            "EXPERIMENTAL_split_storage_info",
        ),
        (
            client.congestion_level(p.clone()),
            "EXPERIMENTAL_congestion_level",
        ),
    ];
    for (index, (request, method)) in sent.iter().enumerate() {
        assert_eq!(
            request.get("method"),
            Some(&Json::String(method.to_string()))
        );
        assert_eq!(
            request.get("id"),
            Some(&Json::Number((index + 1).to_string()))
        );
        assert_eq!(
            request.get("jsonrpc"),
            Some(&Json::String("2.0".to_string()))
        );
    }
    assert_eq!(client.request_id, 32);
}

#[test]
fn error_categories_are_told_apart_by_name() {
    let handler = error_named(Some("HANDLER_ERROR"));
    assert!(handler.is_handler_error());
    assert!(!handler.is_request_validation_error());
    assert!(!handler.is_internal_error());

    let validation = error_named(Some("REQUEST_VALIDATION_ERROR"));
    assert!(validation.is_request_validation_error());
    assert!(!validation.is_handler_error());

    let internal = error_named(Some("INTERNAL_ERROR"));
    assert!(internal.is_internal_error());
    assert!(!internal.is_handler_error());

    let unnamed = error_named(None);
    assert!(!unnamed.is_handler_error());
    assert!(!unnamed.is_request_validation_error());
    assert!(!unnamed.is_internal_error());
    assert!(!error_named(Some("handler_error")).is_handler_error());
}

#[test]
fn cause_name_is_that_of_the_cause() {
    let mut error = error_named(Some("HANDLER_ERROR"));
    assert_eq!(error.cause_name(), None);
    error.cause = Some(RpcErrorCause {
        name: "UNKNOWN_BLOCK".to_string(),
        info: None,
    });
    assert_eq!(error.cause_name(), Some("UNKNOWN_BLOCK"));
}

#[test]
fn error_is_described_by_code_and_message() {
    assert_eq!(
        error_named(None).describe(),
        "RPC error -32000: Server error"
    );
    let mut error = error_named(None);
    error.code = 0;
    error.message = String::new();
    assert_eq!(error.describe(), "RPC error 0: ");
    error.code = i64::MIN;
    assert_eq!(error.describe(), "RPC error -9223372036854775808: ");
    error.code = i64::MAX;
    assert_eq!(error.describe(), "RPC error 9223372036854775807: ");
}

#[test]
fn answer_with_a_result_gives_the_result() {
    assert_eq!(
        parse_response(&json(
            r#"{"jsonrpc": "2.0", "id": 7, "result": {"chain_id": "mainnet"}}"#
        )),
        Ok(json(r#"{"chain_id": "mainnet"}"#))
    );
    assert_eq!(
        parse_response(&json(
            r#"{"jsonrpc": "2.0", "id": 0, "result": null, "error": {}}"#
        )),
        Ok(Json::Null)
    );
}

#[test]
fn answer_with_an_error_gives_the_error() {
    let answer = json(
        r#"{"jsonrpc": "2.0", "id": 3, "error": {
            "code": -32000, "message": "Server error", "data": "DB Not Found",
            "name": "HANDLER_ERROR",
            "cause": {"name": "UNKNOWN_BLOCK", "info": {"block_reference": 5}, "more": true}
        }}"#,
    );
    let expected = RpcError {
        code: -32000,
        message: "Server error".to_string(),
        data: Some(Json::String("DB Not Found".to_string())),
        name: Some("HANDLER_ERROR".to_string()),
        cause: Some(RpcErrorCause {
            name: "UNKNOWN_BLOCK".to_string(),
            info: Some(json(r#"{"block_reference": 5}"#)),
        }),
    };
    assert_eq!(parse_response(&answer), Err(ResponseError::Rpc(expected)));

    let bare = json(
        r#"{"jsonrpc": "2.0", "id": 3, "error": {"code": 1, "message": "m", "data": null, "name": null, "cause": null}}"#,
    );
    assert_eq!(
        parse_response(&bare),
        Err(ResponseError::Rpc(RpcError {
            code: 1,
            message: "m".to_string(),
            data: None,
            name: None,
            cause: None,
        }))
    );
}

#[test]
fn answers_of_another_shape_are_malformed() {
    for text in [
        r#"[]"#,
        r#"{}"#,
        r#"{"jsonrpc": "2.0", "id": 1}"#,
        r#"{"id": 1, "result": 1}"#,
        r#"{"jsonrpc": 2, "id": 1, "result": 1}"#,
        r#"{"jsonrpc": "2.0", "result": 1}"#,
        r#"{"jsonrpc": "2.0", "id": "1", "result": 1}"#,
        r#"{"jsonrpc": "2.0", "id": -1, "result": 1}"#,
        r#"{"jsonrpc": "2.0", "id": 1.5, "result": 1}"#,
        r#"{"jsonrpc": "2.0", "id": 18446744073709551616, "result": 1}"#,
        r#"{"jsonrpc": "2.0", "id": 1, "error": "bad"}"#,
        r#"{"jsonrpc": "2.0", "id": 1, "error": {"message": "m"}}"#,
        r#"{"jsonrpc": "2.0", "id": 1, "error": {"code": 1}}"#,
        r#"{"jsonrpc": "2.0", "id": 1, "error": {"code": "1", "message": "m"}}"#,
        r#"{"jsonrpc": "2.0", "id": 1, "error": {"code": 1.0, "message": "m"}}"#,
        r#"{"jsonrpc": "2.0", "id": 1, "error": {"code": 9223372036854775808, "message": "m"}}"#,
        r#"{"jsonrpc": "2.0", "id": 1, "error": {"code": 1, "message": 2}}"#,
        r#"{"jsonrpc": "2.0", "id": 1, "error": {"code": 1, "message": "m", "name": 3}}"#,
        r#"{"jsonrpc": "2.0", "id": 1, "error": {"code": 1, "message": "m", "cause": "c"}}"#,
        r#"{"jsonrpc": "2.0", "id": 1, "error": {"code": 1, "message": "m", "cause": {"info": 1}}}"#,
    ] {
        assert_eq!(
            parse_response(&json(text)),
            Err(ResponseError::Malformed),
            "{text}"
        );
    }
    let lowest = json(
        r#"{"jsonrpc": "2.0", "id": 18446744073709551615, "error": {"code": -9223372036854775808, "message": ""}}"#,
    );
    assert!(matches!(
        parse_response(&lowest),
        Err(ResponseError::Rpc(RpcError { code: i64::MIN, .. }))
    ));
}
