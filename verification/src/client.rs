//! The client's side of the JSON-RPC exchange with a node, without the
//! transport: the request to send for each method, what an answer holds,
//! and the errors that a node reports.

use vstd::prelude::*;
use crate::decimal::{
    decimal_text, format_u128, parse_i64, parse_u64, parsed_i64, parsed_u64, push_signed,
    signed_text,
};
use crate::json::{concat_entries, entries_view, single_entry, Json, JsonView};
use crate::text::{append_str, str_eq, to_string};

verus! {

/// The structured cause of an error.
#[derive(Clone, Debug, PartialEq, Eq)]
pub struct RpcErrorCause {
    /// The name of the error variant, such as `UNKNOWN_BLOCK`.
    pub name: String,
    /// What else the node tells about the error.
    pub info: Option<Json>,
}

/// An error reported by the node. Beside the code and message of JSON-RPC
/// it carries the category of the error in `name` and its typed cause in
/// `cause`.
#[derive(Clone, Debug, PartialEq, Eq)]
pub struct RpcError {
    pub code: i64,
    pub message: String,
    /// Free-form detail; superseded by `cause`.
    pub data: Option<Json>,
    /// The category: `HANDLER_ERROR`, `REQUEST_VALIDATION_ERROR` or
    /// `INTERNAL_ERROR`.
    pub name: Option<String>,
    pub cause: Option<RpcErrorCause>,
}

impl RpcError {
    /// Whether the error's category is `category`.
    pub open spec fn in_category(self, category: Seq<char>) -> bool {
        self.name matches Some(name) && name@ == category
    }

    /// The line that describes the error: its code and its message.
    pub open spec fn description(self) -> Seq<char> {
        "RPC error "@ + signed_text(self.code as int) + ": "@ + self.message@
    }

    /// Whether the error's category is `category`.
    fn has_category(&self, category: &str) -> (r: bool)
        ensures
            r == self.in_category(category@),
    {
        match &self.name {
            Some(name) => str_eq(name.as_str(), category),
            None => false,
        }
    }

    /// Whether a method failed in a way of its own.
    pub fn is_handler_error(&self) -> (r: bool)
        ensures
            r == self.in_category("HANDLER_ERROR"@),
    {
        self.has_category("HANDLER_ERROR")
    }

    /// Whether the request was not valid.
    pub fn is_request_validation_error(&self) -> (r: bool)
        ensures
            r == self.in_category("REQUEST_VALIDATION_ERROR"@),
    {
        self.has_category("REQUEST_VALIDATION_ERROR")
    }

    /// Whether the node failed internally: a timeout, a closed connection.
    pub fn is_internal_error(&self) -> (r: bool)
        ensures
            r == self.in_category("INTERNAL_ERROR"@),
    {
        self.has_category("INTERNAL_ERROR")
    }

    /// The name of the cause, where the error has a cause.
    pub fn cause_name(&self) -> (r: Option<&str>)
        ensures
            match r {
                Some(name) => self.cause matches Some(cause) && name@ == cause.name@,
                None => self.cause is None,
            },
    {
        match &self.cause {
            Some(cause) => Some(cause.name.as_str()),
            None => None,
        }
    }

    /// The line that describes the error.
    pub fn describe(&self) -> (r: String)
        ensures
            r@ == self.description(),
    {
        let mut out: Vec<char> = Vec::new();
        append_str(&mut out, "RPC error ");
        push_signed(&mut out, self.code);
        append_str(&mut out, ": ");
        append_str(&mut out, self.message.as_str());
        assert(out@ =~= self.description());
        to_string(&out)
    }
}

/// The mathematical value of an [`RpcErrorCause`].
pub struct RpcErrorCauseView {
    pub name: Seq<char>,
    pub info: Option<JsonView>,
}

/// The mathematical value of an [`RpcError`].
pub struct RpcErrorView {
    pub code: i64,
    pub message: Seq<char>,
    pub data: Option<JsonView>,
    pub name: Option<Seq<char>>,
    pub cause: Option<RpcErrorCauseView>,
}

impl View for RpcErrorCause {
    type V = RpcErrorCauseView;

    open spec fn view(&self) -> RpcErrorCauseView {
        RpcErrorCauseView {
            name: self.name@,
            info: match self.info {
                Some(info) => Some(info@),
                None => None,
            },
        }
    }
}

impl View for RpcError {
    type V = RpcErrorView;

    open spec fn view(&self) -> RpcErrorView {
        RpcErrorView {
            code: self.code,
            message: self.message@,
            data: match self.data {
                Some(data) => Some(data@),
                None => None,
            },
            name: match self.name {
                Some(name) => Some(name@),
                None => None,
            },
            cause: match self.cause {
                Some(cause) => Some(cause@),
                None => None,
            },
        }
    }
}

/// Why an answer holds no result.
#[derive(Clone, Debug, PartialEq, Eq)]
pub enum ResponseError {
    /// The node reports an error.
    Rpc(RpcError),
    /// The answer is no JSON-RPC response.
    Malformed,
}

/// The mathematical value of a [`ResponseError`].
pub enum ResponseErrorView {
    Rpc(RpcErrorView),
    Malformed,
}

impl View for ResponseError {
    type V = ResponseErrorView;

    open spec fn view(&self) -> ResponseErrorView {
        match self {
            ResponseError::Rpc(error) => ResponseErrorView::Rpc(error@),
            ResponseError::Malformed => ResponseErrorView::Malformed,
        }
    }
}

/// The member under `key`, unless it is absent or null.
pub open spec fn present_member(value: JsonView, key: Seq<char>) -> Option<JsonView> {
    match value.get(key) {
        Some(JsonView::Null) => None,
        other => other,
    }
}

/// The text under `key`, where that member may be left out: `Some(None)`
/// where it is absent or null, `None` where it is anything but a string.
pub open spec fn optional_text(value: JsonView, key: Seq<char>) -> Option<Option<Seq<char>>> {
    match present_member(value, key) {
        None => Some(None),
        Some(JsonView::String(text)) => Some(Some(text)),
        Some(_) => None,
    }
}

/// The cause that a value stands for: an object with a `name` that is a
/// string, and whatever it holds under `info`.
pub open spec fn cause_of(value: JsonView) -> Option<RpcErrorCauseView> {
    match value.get("name"@) {
        Some(JsonView::String(name)) => Some(
            RpcErrorCauseView { name, info: present_member(value, "info"@) },
        ),
        _ => None,
    }
}

/// The cause under `cause`, which may be left out: `Some(None)` where it is
/// absent or null, `None` where it stands for no cause.
pub open spec fn optional_cause(value: JsonView) -> Option<Option<RpcErrorCauseView>> {
    match present_member(value, "cause"@) {
        None => Some(None),
        Some(cause) => match cause_of(cause) {
            Some(cause) => Some(Some(cause)),
            None => None,
        },
    }
}

/// The code under `code`: a number that is a 64-bit signed integer.
pub open spec fn code_of(value: JsonView) -> Option<i64> {
    match value.get("code"@) {
        Some(JsonView::Number(text)) => parsed_i64(text),
        _ => None,
    }
}

/// The error that a value stands for: an object with an integer `code` and
/// a `message` that is a string; `name` is a string and `cause` a cause
/// where they are there at all.
pub open spec fn error_of(value: JsonView) -> Option<RpcErrorView> {
    match (
        code_of(value),
        value.get("message"@),
        optional_text(value, "name"@),
        optional_cause(value),
    ) {
        (Some(code), Some(JsonView::String(message)), Some(name), Some(cause)) => Some(
            RpcErrorView { code, message, data: present_member(value, "data"@), name, cause },
        ),
        _ => None,
    }
}

/// Whether a value has the frame of a JSON-RPC response: a `jsonrpc` that
/// is a string and an `id` that is a 64-bit unsigned integer.
pub open spec fn is_response(body: JsonView) -> bool {
    &&& body.get("jsonrpc"@) matches Some(JsonView::String(_))
    &&& body.get("id"@) matches Some(JsonView::Number(text)) && parsed_u64(text) is Some
}

/// What an answer holds: the member `result` of a response, or else the
/// error that it reports under `error`.
pub open spec fn response_of(body: JsonView) -> Result<JsonView, ResponseErrorView> {
    if !is_response(body) {
        Err(ResponseErrorView::Malformed)
    } else {
        match body.get("result"@) {
            Some(result) => Ok(result),
            None => match body.get("error"@) {
                Some(error) => match error_of(error) {
                    Some(error) => Err(ResponseErrorView::Rpc(error)),
                    None => Err(ResponseErrorView::Malformed),
                },
                None => Err(ResponseErrorView::Malformed),
            },
        }
    }
}

/// The member under `key`, unless it is absent or null.
fn member_if_present(value: &Json, key: &str) -> (r: Option<Json>)
    ensures
        match r {
            Some(member) => present_member(value@, key@) == Some(member@),
            None => present_member(value@, key@) is None,
        },
{
    match value.get(key) {
        Some(Json::Null) => None,
        Some(member) => Some(member.clone()),
        None => None,
    }
}

/// The cause that a value stands for.
fn parse_cause(value: &Json) -> (r: Option<RpcErrorCause>)
    ensures
        match r {
            Some(cause) => cause_of(value@) == Some(cause@),
            None => cause_of(value@) is None,
        },
{
    let name = match value.get("name") {
        Some(member) => match member.as_str() {
            Some(name) => name.to_string(),
            None => {
                return None;
            },
        },
        None => {
            return None;
        },
    };
    Some(RpcErrorCause { name, info: member_if_present(value, "info") })
}

/// The error that a value stands for.
fn parse_error(value: &Json) -> (r: Option<RpcError>)
    ensures
        match r {
            Some(error) => error_of(value@) == Some(error@),
            None => error_of(value@) is None,
        },
{
    let code = match value.get("code") {
        Some(Json::Number(text)) => match parse_i64(text.as_str()) {
            Some(code) => code,
            None => {
                return None;
            },
        },
        _ => {
            return None;
        },
    };
    let message = match value.get("message") {
        Some(member) => match member.as_str() {
            Some(message) => message.to_string(),
            None => {
                return None;
            },
        },
        None => {
            return None;
        },
    };
    let name = match member_if_present(value, "name") {
        None => None,
        Some(Json::String(name)) => Some(name),
        Some(_) => {
            return None;
        },
    };
    let cause = match member_if_present(value, "cause") {
        None => None,
        Some(member) => match parse_cause(&member) {
            Some(cause) => Some(cause),
            None => {
                return None;
            },
        },
    };
    Some(RpcError { code, message, data: member_if_present(value, "data"), name, cause })
}

/// What an answer holds: its result, or why it has none.
pub fn parse_response(body: &Json) -> (r: Result<Json, ResponseError>)
    ensures
        match r {
            Ok(result) => response_of(body@) == Ok::<JsonView, ResponseErrorView>(result@),
            Err(error) => response_of(body@) == Err::<JsonView, ResponseErrorView>(error@),
        },
{
    let versioned = match body.get("jsonrpc") {
        Some(member) => member.as_str().is_some(),
        None => false,
    };
    let numbered = match body.get("id") {
        Some(Json::Number(text)) => parse_u64(text.as_str()).is_some(),
        _ => false,
    };
    if !versioned || !numbered {
        return Err(ResponseError::Malformed);
    }
    match body.get("result") {
        Some(result) => Ok(result.clone()),
        None => match body.get("error") {
            Some(error) => match parse_error(error) {
                Some(error) => Err(ResponseError::Rpc(error)),
                None => Err(ResponseError::Malformed),
            },
            None => Err(ResponseError::Malformed),
        },
    }
}

/// The request that asks for `method` with `params`, numbered `id`.
pub open spec fn envelope(id: u64, method: Seq<char>, params: JsonView) -> JsonView {
    JsonView::Object(
        seq![
            ("jsonrpc"@, JsonView::String("2.0"@)),
            ("id"@, JsonView::Number(decimal_text(id as nat))),
            ("method"@, JsonView::String(method)),
            ("params"@, params),
        ],
    )
}

/// The parameters of a method that takes none: an empty object.
pub open spec fn no_params() -> JsonView {
    JsonView::Object(Seq::empty())
}

/// The parameters of a method that takes none.
fn without_params() -> (r: Json)
    ensures
        r@ == no_params(),
{
    let entries: Vec<(String, Json)> = Vec::new();
    assert(entries_view(entries@) =~= Seq::empty());
    Json::object(entries)
}

/// The number that follows `id`, starting over after the last.
pub open spec fn following(id: u64) -> u64 {
    if id == u64::MAX {
        0
    } else {
        (id + 1) as u64
    }
}

/// The state of a client of a node: where the node is reached, and the
/// number of the next request.
#[derive(Debug, PartialEq, Eq)]
pub struct NearRpcClient {
    pub url: String,
    pub request_id: u64,
}

impl NearRpcClient {
    /// The client after one more request.
    pub open spec fn advanced(self) -> NearRpcClient {
        NearRpcClient { url: self.url, request_id: following(self.request_id) }
    }

    /// A client of the node at the address that `url` converts into.
    pub fn new<U: Into<String>>(url: U) -> (r: Self)
        ensures
            r.request_id == 1,
            call_ensures(U::into, (url,), r.url),
    {
        NearRpcClient { url: url.into(), request_id: 1 }
    }

    /// A client of NEAR Mainnet.
    pub fn mainnet() -> (r: Self)
        ensures
            r.url@ == "https://rpc.mainnet.near.org"@,
            r.request_id == 1,
    {
        NearRpcClient { url: "https://rpc.mainnet.near.org".to_string(), request_id: 1 }
    }

    /// A client of NEAR Testnet.
    pub fn testnet() -> (r: Self)
        ensures
            r.url@ == "https://rpc.testnet.near.org"@,
            r.request_id == 1,
    {
        NearRpcClient { url: "https://rpc.testnet.near.org".to_string(), request_id: 1 }
    }

    /// A client of NEAR Betanet.
    pub fn betanet() -> (r: Self)
        ensures
            r.url@ == "https://rpc.betanet.near.org"@,
            r.request_id == 1,
    {
        NearRpcClient { url: "https://rpc.betanet.near.org".to_string(), request_id: 1 }
    }

    /// A client of a node on this machine, at port 3030.
    pub fn local() -> (r: Self)
        ensures
            r.url@ == "http://localhost:3030"@,
            r.request_id == 1,
    {
        NearRpcClient { url: "http://localhost:3030".to_string(), request_id: 1 }
    }

    /// The number of the next request; the one after it follows.
    pub fn next_id(&mut self) -> (id: u64)
        ensures
            id == old(self).request_id,
            *final(self) == old(self).advanced(),
    {
        let id = self.request_id;
        self.request_id = if id == u64::MAX {
            0
        } else {
            id + 1
        };
        id
    }

    /// The request that asks for `method` with `params`.
    pub fn request(&mut self, method: &str, params: Json) -> (r: Json)
        ensures
            r@ == envelope(old(self).request_id, method@, params@),
            *final(self) == old(self).advanced(),
    {
        let id = self.next_id();
        let entries = concat_entries(
            concat_entries(
                concat_entries(
                    single_entry("jsonrpc", Json::string("2.0")),
                    single_entry("id", Json::Number(format_u128(id as u128))),
                ),
                single_entry("method", Json::string(method)),
            ),
            single_entry("params", params),
        );
        assert(entries_view(entries@) =~= envelope(id, method@, params@)->Object_0);
        Json::object(entries)
    }

    /// The current status of the node.
    pub fn status(&mut self) -> (r: Json)
        ensures
            r@ == envelope(old(self).request_id, "status"@, no_params()),
            *final(self) == old(self).advanced(),
    {
        self.request("status", without_params())
    }

    /// The health of the node.
    pub fn health(&mut self) -> (r: Json)
        ensures
            r@ == envelope(old(self).request_id, "health"@, no_params()),
            *final(self) == old(self).advanced(),
    {
        self.request("health", without_params())
    }

    /// The state of the node's network connections.
    pub fn network_info(&mut self) -> (r: Json)
        ensures
            r@ == envelope(old(self).request_id, "network_info"@, no_params()),
            *final(self) == old(self).advanced(),
    {
        self.request("network_info", without_params())
    }

    /// The block at a height or hash.
    pub fn block(&mut self, request: Json) -> (r: Json)
        ensures
            r@ == envelope(old(self).request_id, "block"@, request@),
            *final(self) == old(self).advanced(),
    {
        self.request("block", request)
    }

    /// A chunk of a block.
    pub fn chunk(&mut self, request: Json) -> (r: Json)
        ensures
            r@ == envelope(old(self).request_id, "chunk"@, request@),
            *final(self) == old(self).advanced(),
    {
        self.request("chunk", request)
    }

    /// The gas price at a block.
    pub fn gas_price(&mut self, request: Json) -> (r: Json)
        ensures
            r@ == envelope(old(self).request_id, "gas_price"@, request@),
            *final(self) == old(self).advanced(),
    {
        self.request("gas_price", request)
    }

    /// Basic information about an account.
    pub fn view_account(&mut self, request: Json) -> (r: Json)
        ensures
            r@ == envelope(old(self).request_id, "EXPERIMENTAL_view_account"@, request@),
            *final(self) == old(self).advanced(),
    {
        self.request("EXPERIMENTAL_view_account", request)
    }

    /// The contract code deployed to an account.
    pub fn view_code(&mut self, request: Json) -> (r: Json)
        ensures
            r@ == envelope(old(self).request_id, "EXPERIMENTAL_view_code"@, request@),
            *final(self) == old(self).advanced(),
    {
        self.request("EXPERIMENTAL_view_code", request)
    }

    /// The contract state of an account under a key prefix.
    pub fn view_state(&mut self, request: Json) -> (r: Json)
        ensures
            r@ == envelope(old(self).request_id, "EXPERIMENTAL_view_state"@, request@),
            *final(self) == old(self).advanced(),
    {
        self.request("EXPERIMENTAL_view_state", request)
    }

    /// One access key of an account.
    pub fn view_access_key(&mut self, request: Json) -> (r: Json)
        ensures
            r@ == envelope(old(self).request_id, "EXPERIMENTAL_view_access_key"@, request@),
            *final(self) == old(self).advanced(),
    {
        self.request("EXPERIMENTAL_view_access_key", request)
    }

    /// All access keys of an account.
    pub fn view_access_key_list(&mut self, request: Json) -> (r: Json)
        ensures
            r@ == envelope(old(self).request_id, "EXPERIMENTAL_view_access_key_list"@, request@),
            *final(self) == old(self).advanced(),
    {
        self.request("EXPERIMENTAL_view_access_key_list", request)
    }

    /// The result of a view call on a contract.
    pub fn call_function(&mut self, request: Json) -> (r: Json)
        ensures
            r@ == envelope(old(self).request_id, "EXPERIMENTAL_call_function"@, request@),
            *final(self) == old(self).advanced(),
    {
        self.request("EXPERIMENTAL_call_function", request)
    }

    /// Sends a signed transaction; the answer is its hash, given at once.
    pub fn broadcast_tx_async(&mut self, request: Json) -> (r: Json)
        ensures
            r@ == envelope(old(self).request_id, "broadcast_tx_async"@, request@),
            *final(self) == old(self).advanced(),
    {
        self.request("broadcast_tx_async", request)
    }

    /// Sends a signed transaction and waits for it to complete.
    pub fn broadcast_tx_commit(&mut self, request: Json) -> (r: Json)
        ensures
            r@ == envelope(old(self).request_id, "broadcast_tx_commit"@, request@),
            *final(self) == old(self).advanced(),
    {
        self.request("broadcast_tx_commit", request)
    }

    /// Sends a signed transaction.
    pub fn send_tx(&mut self, request: Json) -> (r: Json)
        ensures
            r@ == envelope(old(self).request_id, "send_tx"@, request@),
            *final(self) == old(self).advanced(),
    {
        self.request("send_tx", request)
    }

    /// The status of a transaction.
    pub fn tx(&mut self, request: Json) -> (r: Json)
        ensures
            r@ == envelope(old(self).request_id, "tx"@, request@),
            *final(self) == old(self).advanced(),
    {
        self.request("tx", request)
    }

    /// The validators of an epoch.
    pub fn validators(&mut self, request: Json) -> (r: Json)
        ensures
            r@ == envelope(old(self).request_id, "validators"@, request@),
            *final(self) == old(self).advanced(),
    {
        self.request("validators", request)
    }

    /// The validators of an epoch, ordered by stake.
    pub fn validators_ordered(&mut self, request: Json) -> (r: Json)
        ensures
            r@ == envelope(old(self).request_id, "EXPERIMENTAL_validators_ordered"@, request@),
            *final(self) == old(self).advanced(),
    {
        self.request("EXPERIMENTAL_validators_ordered", request)
    }

    /// The execution proof of a transaction or receipt, for light clients.
    pub fn light_client_proof(&mut self, request: Json) -> (r: Json)
        ensures
            r@ == envelope(old(self).request_id, "light_client_proof"@, request@),
            *final(self) == old(self).advanced(),
    {
        self.request("light_client_proof", request)
    }

    /// The next light client block.
    pub fn next_light_client_block(&mut self, request: Json) -> (r: Json)
        ensures
            r@ == envelope(old(self).request_id, "next_light_client_block"@, request@),
            *final(self) == old(self).advanced(),
    {
        self.request("next_light_client_block", request)
    }

    /// The proof of a block, for light clients.
    pub fn light_client_block_proof(&mut self, request: Json) -> (r: Json)
        ensures
            r@ == envelope(old(self).request_id, "light_client_block_proof"@, request@),
            *final(self) == old(self).advanced(),
    {
        self.request("light_client_block_proof", request)
    }

    /// The kinds of changes made in a block.
    pub fn changes_in_block(&mut self, request: Json) -> (r: Json)
        ensures
            r@ == envelope(old(self).request_id, "EXPERIMENTAL_changes_in_block"@, request@),
            *final(self) == old(self).advanced(),
    {
        self.request("EXPERIMENTAL_changes_in_block", request)
    }

    /// The state changes of given kinds in a block.
    pub fn changes(&mut self, request: Json) -> (r: Json)
        ensures
            r@ == envelope(old(self).request_id, "EXPERIMENTAL_changes"@, request@),
            *final(self) == old(self).advanced(),
    {
        self.request("EXPERIMENTAL_changes", request)
    }

    /// The kinds of changes made in a block.
    pub fn block_effects(&mut self, request: Json) -> (r: Json)
        ensures
            r@ == envelope(old(self).request_id, "block_effects"@, request@),
            *final(self) == old(self).advanced(),
    {
        self.request("block_effects", request)
    }

    /// The protocol configuration at a block.
    pub fn protocol_config(&mut self, request: Json) -> (r: Json)
        ensures
            r@ == envelope(old(self).request_id, "EXPERIMENTAL_protocol_config"@, request@),
            *final(self) == old(self).advanced(),
    {
        self.request("EXPERIMENTAL_protocol_config", request)
    }

    /// The genesis configuration of the network.
    pub fn genesis_config(&mut self) -> (r: Json)
        ensures
            r@ == envelope(old(self).request_id, "genesis_config"@, no_params()),
            *final(self) == old(self).advanced(),
    {
        self.request("genesis_config", without_params())
    }

    /// The configuration of the node.
    pub fn client_config(&mut self) -> (r: Json)
        ensures
            r@ == envelope(old(self).request_id, "client_config"@, no_params()),
            *final(self) == old(self).advanced(),
    {
        self.request("client_config", without_params())
    }

    /// A receipt.
    pub fn receipt(&mut self, request: Json) -> (r: Json)
        ensures
            r@ == envelope(old(self).request_id, "EXPERIMENTAL_receipt"@, request@),
            *final(self) == old(self).advanced(),
    {
        self.request("EXPERIMENTAL_receipt", request)
    }

    /// The maintenance windows of the node.
    pub fn maintenance_windows(&mut self) -> (r: Json)
        ensures
            r@ == envelope(old(self).request_id, "maintenance_windows"@, no_params()),
            *final(self) == old(self).advanced(),
    {
        self.request("maintenance_windows", without_params())
    }

    /// The state of the node's split storage.
    pub fn split_storage_info(&mut self) -> (r: Json)
        ensures
            r@ == envelope(old(self).request_id, "EXPERIMENTAL_split_storage_info"@, no_params()),
            *final(self) == old(self).advanced(),
    {
        self.request("EXPERIMENTAL_split_storage_info", without_params())
    }

    /// The congestion level of a chunk.
    pub fn congestion_level(&mut self, request: Json) -> (r: Json)
        ensures
            r@ == envelope(old(self).request_id, "EXPERIMENTAL_congestion_level"@, request@),
            *final(self) == old(self).advanced(),
    {
        self.request("EXPERIMENTAL_congestion_level", request)
    }
}

} // verus!
