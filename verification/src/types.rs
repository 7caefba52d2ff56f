//! The protocol's query request and the value types that it is made of,
//! each with the JSON value that stands for it on the wire.

use vstd::prelude::*;
use vstd::std_specs::convert::FromSpecImpl;
use crate::decimal::{decimal_text, format_u128};
use crate::json::{entries_view, Json, JsonView};

verus! {

/// A NEAR account identifier.
#[derive(Clone, Debug, PartialEq, Eq)]
pub struct AccountId(pub String);

impl From<String> for AccountId {
    fn from(value: String) -> (r: Self) {
        AccountId(value)
    }
}

impl FromSpecImpl<String> for AccountId {
    open spec fn obeys_from_spec() -> bool {
        true
    }

    open spec fn from_spec(value: String) -> Self {
        AccountId(value)
    }
}

impl AccountId {
    /// The JSON string that stands for this value.
    pub open spec fn wire(self) -> JsonView {
        JsonView::String(self.0@)
    }

    /// The JSON string that stands for this value.
    pub fn to_json(&self) -> (r: Json)
        ensures
            r@ == self.wire(),
    {
        Json::String(self.0.clone())
    }
}

/// A public key in its textual form, such as `ed25519:...`.
#[derive(Clone, Debug, PartialEq, Eq)]
pub struct PublicKey(pub String);

impl From<String> for PublicKey {
    fn from(value: String) -> (r: Self) {
        PublicKey(value)
    }
}

impl FromSpecImpl<String> for PublicKey {
    open spec fn obeys_from_spec() -> bool {
        true
    }

    open spec fn from_spec(value: String) -> Self {
        PublicKey(value)
    }
}

impl PublicKey {
    /// The JSON string that stands for this value.
    pub open spec fn wire(self) -> JsonView {
        JsonView::String(self.0@)
    }

    /// The JSON string that stands for this value.
    pub fn to_json(&self) -> (r: Json)
        ensures
            r@ == self.wire(),
    {
        Json::String(self.0.clone())
    }
}

/// A base58-encoded hash.
#[derive(Clone, Debug, PartialEq, Eq)]
pub struct CryptoHash(pub String);

impl From<String> for CryptoHash {
    fn from(value: String) -> (r: Self) {
        CryptoHash(value)
    }
}

impl FromSpecImpl<String> for CryptoHash {
    open spec fn obeys_from_spec() -> bool {
        true
    }

    open spec fn from_spec(value: String) -> Self {
        CryptoHash(value)
    }
}

impl CryptoHash {
    /// The JSON string that stands for this value.
    pub open spec fn wire(self) -> JsonView {
        JsonView::String(self.0@)
    }

    /// The JSON string that stands for this value.
    pub fn to_json(&self) -> (r: Json)
        ensures
            r@ == self.wire(),
    {
        Json::String(self.0.clone())
    }
}

/// The base64-encoded arguments of a contract call.
#[derive(Clone, Debug, PartialEq, Eq)]
pub struct FunctionArgs(pub String);

impl From<String> for FunctionArgs {
    fn from(value: String) -> (r: Self) {
        FunctionArgs(value)
    }
}

impl FromSpecImpl<String> for FunctionArgs {
    open spec fn obeys_from_spec() -> bool {
        true
    }

    open spec fn from_spec(value: String) -> Self {
        FunctionArgs(value)
    }
}

impl FunctionArgs {
    /// The JSON string that stands for this value.
    pub open spec fn wire(self) -> JsonView {
        JsonView::String(self.0@)
    }

    /// The JSON string that stands for this value.
    pub fn to_json(&self) -> (r: Json)
        ensures
            r@ == self.wire(),
    {
        Json::String(self.0.clone())
    }
}

/// A base64-encoded key, or key prefix, of a contract's storage.
#[derive(Clone, Debug, PartialEq, Eq)]
pub struct StoreKey(pub String);

impl From<String> for StoreKey {
    fn from(value: String) -> (r: Self) {
        StoreKey(value)
    }
}

impl FromSpecImpl<String> for StoreKey {
    open spec fn obeys_from_spec() -> bool {
        true
    }

    open spec fn from_spec(value: String) -> Self {
        StoreKey(value)
    }
}

impl StoreKey {
    /// The JSON string that stands for this value.
    pub open spec fn wire(self) -> JsonView {
        JsonView::String(self.0@)
    }

    /// The JSON string that stands for this value.
    pub fn to_json(&self) -> (r: Json)
        ensures
            r@ == self.wire(),
    {
        Json::String(self.0.clone())
    }
}

/// How final a block must be to serve a query.
#[derive(Clone, Copy, Debug, PartialEq, Eq)]
pub enum Finality {
    Optimistic,
    NearFinal,
    Final,
}

impl Finality {
    /// The name of this finality level on the wire.
    pub open spec fn wire_name(self) -> Seq<char> {
        match self {
            Finality::Optimistic => "optimistic"@,
            Finality::NearFinal => "near-final"@,
            Finality::Final => "final"@,
        }
    }

    /// The JSON string that stands for this value.
    pub open spec fn wire(self) -> JsonView {
        JsonView::String(self.wire_name())
    }

    /// The JSON string that stands for this value.
    pub fn to_json(&self) -> (r: Json)
        ensures
            r@ == self.wire(),
    {
        match self {
            Finality::Optimistic => Json::string("optimistic"),
            Finality::NearFinal => Json::string("near-final"),
            Finality::Final => Json::string("final"),
        }
    }
}

/// A well-known point of the chain that a node can serve queries at.
#[derive(Clone, Copy, Debug, PartialEq, Eq)]
pub enum SyncCheckpoint {
    Genesis,
    EarliestAvailable,
}

impl SyncCheckpoint {
    /// The name of this checkpoint on the wire.
    pub open spec fn wire_name(self) -> Seq<char> {
        match self {
            SyncCheckpoint::Genesis => "genesis"@,
            SyncCheckpoint::EarliestAvailable => "earliest_available"@,
        }
    }

    /// The JSON string that stands for this value.
    pub open spec fn wire(self) -> JsonView {
        JsonView::String(self.wire_name())
    }

    /// The JSON string that stands for this value.
    pub fn to_json(&self) -> (r: Json)
        ensures
            r@ == self.wire(),
    {
        match self {
            SyncCheckpoint::Genesis => Json::string("genesis"),
            SyncCheckpoint::EarliestAvailable => Json::string("earliest_available"),
        }
    }
}

/// A block, named by its height or by its hash.
#[derive(Clone, Debug, PartialEq, Eq)]
pub enum BlockId {
    BlockHeight(u64),
    CryptoHash(CryptoHash),
}

impl BlockId {
    /// The JSON value that stands for this block: the height as a number,
    /// or the hash as a string.
    pub open spec fn wire(self) -> JsonView {
        match self {
            BlockId::BlockHeight(height) => JsonView::Number(decimal_text(height as nat)),
            BlockId::CryptoHash(hash) => hash.wire(),
        }
    }

    /// The JSON value that stands for this block.
    pub fn to_json(&self) -> (r: Json)
        ensures
            r@ == self.wire(),
    {
        match self {
            BlockId::BlockHeight(height) => Json::Number(format_u128(*height as u128)),
            BlockId::CryptoHash(hash) => hash.to_json(),
        }
    }
}

/// An amount of tokens in yoctoNEAR, held as decimal text.
#[derive(Clone, Debug, PartialEq, Eq)]
pub struct NearToken(pub String);

/// An amount of gas, in gas units.
#[derive(Clone, Copy, Debug, PartialEq, Eq)]
pub struct NearGas(pub u64);

/// A query against the state of the chain. Each kind of query comes in three
/// variants, one for each way of naming the block that it is answered at.
/// `request_type` holds the name of the kind of query.
#[derive(Clone, Debug, PartialEq, Eq)]
pub enum RpcQueryRequest {
    ViewAccountFinality {
        account_id: AccountId,
        finality: Finality,
        request_type: String,
    },
    ViewAccountBlockId {
        account_id: AccountId,
        block_id: BlockId,
        request_type: String,
    },
    ViewAccountSyncCheckpoint {
        account_id: AccountId,
        request_type: String,
        sync_checkpoint: SyncCheckpoint,
    },
    ViewCodeFinality {
        account_id: AccountId,
        finality: Finality,
        request_type: String,
    },
    ViewCodeBlockId {
        account_id: AccountId,
        block_id: BlockId,
        request_type: String,
    },
    ViewCodeSyncCheckpoint {
        account_id: AccountId,
        request_type: String,
        sync_checkpoint: SyncCheckpoint,
    },
    ViewStateFinality {
        account_id: AccountId,
        finality: Finality,
        include_proof: Option<bool>,
        prefix_base64: StoreKey,
        request_type: String,
    },
    ViewStateBlockId {
        account_id: AccountId,
        block_id: BlockId,
        include_proof: Option<bool>,
        prefix_base64: StoreKey,
        request_type: String,
    },
    ViewStateSyncCheckpoint {
        account_id: AccountId,
        include_proof: Option<bool>,
        prefix_base64: StoreKey,
        request_type: String,
        sync_checkpoint: SyncCheckpoint,
    },
    ViewAccessKeyFinality {
        account_id: AccountId,
        finality: Finality,
        public_key: PublicKey,
        request_type: String,
    },
    ViewAccessKeyBlockId {
        account_id: AccountId,
        block_id: BlockId,
        public_key: PublicKey,
        request_type: String,
    },
    ViewAccessKeySyncCheckpoint {
        account_id: AccountId,
        public_key: PublicKey,
        request_type: String,
        sync_checkpoint: SyncCheckpoint,
    },
    ViewAccessKeyListFinality {
        account_id: AccountId,
        finality: Finality,
        request_type: String,
    },
    ViewAccessKeyListBlockId {
        account_id: AccountId,
        block_id: BlockId,
        request_type: String,
    },
    ViewAccessKeyListSyncCheckpoint {
        account_id: AccountId,
        request_type: String,
        sync_checkpoint: SyncCheckpoint,
    },
    ViewGasKeyNoncesFinality {
        account_id: AccountId,
        finality: Finality,
        public_key: PublicKey,
        request_type: String,
    },
    ViewGasKeyNoncesBlockId {
        account_id: AccountId,
        block_id: BlockId,
        public_key: PublicKey,
        request_type: String,
    },
    ViewGasKeyNoncesSyncCheckpoint {
        account_id: AccountId,
        public_key: PublicKey,
        request_type: String,
        sync_checkpoint: SyncCheckpoint,
    },
    CallFunctionFinality {
        account_id: AccountId,
        args_base64: FunctionArgs,
        finality: Finality,
        method_name: String,
        request_type: String,
    },
    CallFunctionBlockId {
        account_id: AccountId,
        args_base64: FunctionArgs,
        block_id: BlockId,
        method_name: String,
        request_type: String,
    },
    CallFunctionSyncCheckpoint {
        account_id: AccountId,
        args_base64: FunctionArgs,
        method_name: String,
        request_type: String,
        sync_checkpoint: SyncCheckpoint,
    },
    ViewGlobalContractCodeFinality {
        code_hash: CryptoHash,
        finality: Finality,
        request_type: String,
    },
    ViewGlobalContractCodeBlockId {
        block_id: BlockId,
        code_hash: CryptoHash,
        request_type: String,
    },
    ViewGlobalContractCodeSyncCheckpoint {
        code_hash: CryptoHash,
        request_type: String,
        sync_checkpoint: SyncCheckpoint,
    },
    ViewGlobalContractCodeByAccountIdFinality {
        account_id: AccountId,
        finality: Finality,
        request_type: String,
    },
    ViewGlobalContractCodeByAccountIdBlockId {
        account_id: AccountId,
        block_id: BlockId,
        request_type: String,
    },
    ViewGlobalContractCodeByAccountIdSyncCheckpoint {
        account_id: AccountId,
        request_type: String,
        sync_checkpoint: SyncCheckpoint,
    },
}

/// `entries` followed by the entry for an optional flag: none where the
/// flag is absent.
pub open spec fn with_flag(
    entries: Seq<(Seq<char>, JsonView)>,
    key: Seq<char>,
    flag: Option<bool>,
) -> Seq<(Seq<char>, JsonView)> {
    match flag {
        Some(b) => entries.push((key, JsonView::Bool(b))),
        None => entries,
    }
}

/// The entries of an object under construction.
struct Fields {
    entries: Vec<(String, Json)>,
}

impl Fields {
    /// No entries.
    fn new() -> (r: Fields)
        ensures
            entries_view(r.entries@) == Seq::<(Seq<char>, JsonView)>::empty(),
    {
        let r = Fields { entries: Vec::new() };
        assert(entries_view(r.entries@) =~= Seq::empty());
        r
    }

    /// One more entry.
    fn with(self, key: &str, value: Json) -> (r: Fields)
        ensures
            entries_view(r.entries@) == entries_view(self.entries@).push((key@, value@)),
    {
        let mut entries = self.entries;
        entries.push((key.to_string(), value));
        assert(entries_view(entries@) =~= entries_view(self.entries@).push((key@, value@)));
        Fields { entries }
    }

    /// One more entry for a flag, unless the flag is absent.
    fn with_flag(self, key: &str, flag: &Option<bool>) -> (r: Fields)
        ensures
            entries_view(r.entries@) == with_flag(entries_view(self.entries@), key@, *flag),
    {
        match flag {
            Some(b) => self.with(key, Json::Bool(*b)),
            None => self,
        }
    }
}

impl RpcQueryRequest {
    /// The name of the kind of query that this variant belongs to: the value
    /// of `request_type` on the wire.
    pub open spec fn discriminator(self) -> Seq<char> {
        match self {
            Self::ViewAccountFinality { .. }
            | Self::ViewAccountBlockId { .. }
            | Self::ViewAccountSyncCheckpoint { .. } => "view_account"@,
            Self::ViewCodeFinality { .. }
            | Self::ViewCodeBlockId { .. }
            | Self::ViewCodeSyncCheckpoint { .. } => "view_code"@,
            Self::ViewStateFinality { .. }
            | Self::ViewStateBlockId { .. }
            | Self::ViewStateSyncCheckpoint { .. } => "view_state"@,
            Self::ViewAccessKeyFinality { .. }
            | Self::ViewAccessKeyBlockId { .. }
            | Self::ViewAccessKeySyncCheckpoint { .. } => "view_access_key"@,
            Self::ViewAccessKeyListFinality { .. }
            | Self::ViewAccessKeyListBlockId { .. }
            | Self::ViewAccessKeyListSyncCheckpoint { .. } => "view_access_key_list"@,
            Self::ViewGasKeyNoncesFinality { .. }
            | Self::ViewGasKeyNoncesBlockId { .. }
            | Self::ViewGasKeyNoncesSyncCheckpoint { .. } => "view_gas_key_nonces"@,
            Self::CallFunctionFinality { .. }
            | Self::CallFunctionBlockId { .. }
            | Self::CallFunctionSyncCheckpoint { .. } => "call_function"@,
            Self::ViewGlobalContractCodeFinality { .. }
            | Self::ViewGlobalContractCodeBlockId { .. }
            | Self::ViewGlobalContractCodeSyncCheckpoint { .. } => {
                "view_global_contract_code"@
            },
            Self::ViewGlobalContractCodeByAccountIdFinality { .. }
            | Self::ViewGlobalContractCodeByAccountIdBlockId { .. }
            | Self::ViewGlobalContractCodeByAccountIdSyncCheckpoint { .. } => {
                "view_global_contract_code_by_account_id"@
            },
        }
    }

    /// The value held in the variant's `request_type` field.
    pub open spec fn request_type(self) -> Seq<char> {
        match self {
            Self::ViewAccountFinality { request_type, .. }
            | Self::ViewAccountBlockId { request_type, .. }
            | Self::ViewAccountSyncCheckpoint { request_type, .. } => request_type@,
            Self::ViewCodeFinality { request_type, .. }
            | Self::ViewCodeBlockId { request_type, .. }
            | Self::ViewCodeSyncCheckpoint { request_type, .. } => request_type@,
            Self::ViewStateFinality { request_type, .. }
            | Self::ViewStateBlockId { request_type, .. }
            | Self::ViewStateSyncCheckpoint { request_type, .. } => request_type@,
            Self::ViewAccessKeyFinality { request_type, .. }
            | Self::ViewAccessKeyBlockId { request_type, .. }
            | Self::ViewAccessKeySyncCheckpoint { request_type, .. } => request_type@,
            Self::ViewAccessKeyListFinality { request_type, .. }
            | Self::ViewAccessKeyListBlockId { request_type, .. }
            | Self::ViewAccessKeyListSyncCheckpoint { request_type, .. } => {
                request_type@
            },
            Self::ViewGasKeyNoncesFinality { request_type, .. }
            | Self::ViewGasKeyNoncesBlockId { request_type, .. }
            | Self::ViewGasKeyNoncesSyncCheckpoint { request_type, .. } => {
                request_type@
            },
            Self::CallFunctionFinality { request_type, .. }
            | Self::CallFunctionBlockId { request_type, .. }
            | Self::CallFunctionSyncCheckpoint { request_type, .. } => request_type@,
            Self::ViewGlobalContractCodeFinality { request_type, .. }
            | Self::ViewGlobalContractCodeBlockId { request_type, .. }
            | Self::ViewGlobalContractCodeSyncCheckpoint { request_type, .. } => {
                request_type@
            },
            Self::ViewGlobalContractCodeByAccountIdFinality { request_type, .. }
            | Self::ViewGlobalContractCodeByAccountIdBlockId { request_type, .. }
            | Self::ViewGlobalContractCodeByAccountIdSyncCheckpoint { request_type, .. } => {
                request_type@
            },
        }
    }

    /// The entries that stand for the variant's fields on the wire, in
    /// declaration order, without the discriminator. An absent
    /// `include_proof` has no entry.
    pub open spec fn wire_fields(self) -> Seq<(Seq<char>, JsonView)> {
        match self {
            Self::ViewAccountFinality { account_id, finality, .. } => seq![
                ("account_id"@, account_id.wire()),
                ("finality"@, finality.wire()),
            ],
            Self::ViewAccountBlockId { account_id, block_id, .. } => seq![
                ("account_id"@, account_id.wire()),
                ("block_id"@, block_id.wire()),
            ],
            Self::ViewAccountSyncCheckpoint { account_id, sync_checkpoint, .. } => seq![
                ("account_id"@, account_id.wire()),
                ("sync_checkpoint"@, sync_checkpoint.wire()),
            ],
            Self::ViewCodeFinality { account_id, finality, .. } => seq![
                ("account_id"@, account_id.wire()),
                ("finality"@, finality.wire()),
            ],
            Self::ViewCodeBlockId { account_id, block_id, .. } => seq![
                ("account_id"@, account_id.wire()),
                ("block_id"@, block_id.wire()),
            ],
            Self::ViewCodeSyncCheckpoint { account_id, sync_checkpoint, .. } => seq![
                ("account_id"@, account_id.wire()),
                ("sync_checkpoint"@, sync_checkpoint.wire()),
            ],
            Self::ViewStateFinality {
                account_id,
                finality,
                include_proof,
                prefix_base64,
                ..
            } => with_flag(
                seq![
                    ("account_id"@, account_id.wire()),
                    ("finality"@, finality.wire()),
                ],
                "include_proof"@,
                include_proof,
            )
                .push(("prefix_base64"@, prefix_base64.wire())),
            Self::ViewStateBlockId {
                account_id,
                block_id,
                include_proof,
                prefix_base64,
                ..
            } => with_flag(
                seq![
                    ("account_id"@, account_id.wire()),
                    ("block_id"@, block_id.wire()),
                ],
                "include_proof"@,
                include_proof,
            )
                .push(("prefix_base64"@, prefix_base64.wire())),
            Self::ViewStateSyncCheckpoint {
                account_id,
                include_proof,
                prefix_base64,
                sync_checkpoint,
                ..
            } => with_flag(
                seq![
                    ("account_id"@, account_id.wire()),
                ],
                "include_proof"@,
                include_proof,
            )
                .push(("prefix_base64"@, prefix_base64.wire()))
                .push(("sync_checkpoint"@, sync_checkpoint.wire())),
            Self::ViewAccessKeyFinality { account_id, finality, public_key, .. } => seq![
                ("account_id"@, account_id.wire()),
                ("finality"@, finality.wire()),
                ("public_key"@, public_key.wire()),
            ],
            Self::ViewAccessKeyBlockId { account_id, block_id, public_key, .. } => seq![
                ("account_id"@, account_id.wire()),
                ("block_id"@, block_id.wire()),
                ("public_key"@, public_key.wire()),
            ],
            Self::ViewAccessKeySyncCheckpoint {
                account_id,
                public_key,
                sync_checkpoint,
                ..
            } => seq![
                ("account_id"@, account_id.wire()),
                ("public_key"@, public_key.wire()),
                ("sync_checkpoint"@, sync_checkpoint.wire()),
            ],
            Self::ViewAccessKeyListFinality { account_id, finality, .. } => seq![
                ("account_id"@, account_id.wire()),
                ("finality"@, finality.wire()),
            ],
            Self::ViewAccessKeyListBlockId { account_id, block_id, .. } => seq![
                ("account_id"@, account_id.wire()),
                ("block_id"@, block_id.wire()),
            ],
            Self::ViewAccessKeyListSyncCheckpoint {
                account_id,
                sync_checkpoint,
                ..
            } => seq![
                ("account_id"@, account_id.wire()),
                ("sync_checkpoint"@, sync_checkpoint.wire()),
            ],
            Self::ViewGasKeyNoncesFinality { account_id, finality, public_key, .. } => seq![
                ("account_id"@, account_id.wire()),
                ("finality"@, finality.wire()),
                ("public_key"@, public_key.wire()),
            ],
            Self::ViewGasKeyNoncesBlockId { account_id, block_id, public_key, .. } => seq![
                ("account_id"@, account_id.wire()),
                ("block_id"@, block_id.wire()),
                ("public_key"@, public_key.wire()),
            ],
            Self::ViewGasKeyNoncesSyncCheckpoint {
                account_id,
                public_key,
                sync_checkpoint,
                ..
            } => seq![
                ("account_id"@, account_id.wire()),
                ("public_key"@, public_key.wire()),
                ("sync_checkpoint"@, sync_checkpoint.wire()),
            ],
            Self::CallFunctionFinality {
                account_id,
                args_base64,
                finality,
                method_name,
                ..
            } => seq![
                ("account_id"@, account_id.wire()),
                ("args_base64"@, args_base64.wire()),
                ("finality"@, finality.wire()),
                ("method_name"@, JsonView::String(method_name@)),
            ],
            Self::CallFunctionBlockId {
                account_id,
                args_base64,
                block_id,
                method_name,
                ..
            } => seq![
                ("account_id"@, account_id.wire()),
                ("args_base64"@, args_base64.wire()),
                ("block_id"@, block_id.wire()),
                ("method_name"@, JsonView::String(method_name@)),
            ],
            Self::CallFunctionSyncCheckpoint {
                account_id,
                args_base64,
                method_name,
                sync_checkpoint,
                ..
            } => seq![
                ("account_id"@, account_id.wire()),
                ("args_base64"@, args_base64.wire()),
                ("method_name"@, JsonView::String(method_name@)),
                ("sync_checkpoint"@, sync_checkpoint.wire()),
            ],
            Self::ViewGlobalContractCodeFinality { code_hash, finality, .. } => seq![
                ("code_hash"@, code_hash.wire()),
                ("finality"@, finality.wire()),
            ],
            Self::ViewGlobalContractCodeBlockId { block_id, code_hash, .. } => seq![
                ("block_id"@, block_id.wire()),
                ("code_hash"@, code_hash.wire()),
            ],
            Self::ViewGlobalContractCodeSyncCheckpoint {
                code_hash,
                sync_checkpoint,
                ..
            } => seq![
                ("code_hash"@, code_hash.wire()),
                ("sync_checkpoint"@, sync_checkpoint.wire()),
            ],
            Self::ViewGlobalContractCodeByAccountIdFinality {
                account_id,
                finality,
                ..
            } => seq![
                ("account_id"@, account_id.wire()),
                ("finality"@, finality.wire()),
            ],
            Self::ViewGlobalContractCodeByAccountIdBlockId {
                account_id,
                block_id,
                ..
            } => seq![
                ("account_id"@, account_id.wire()),
                ("block_id"@, block_id.wire()),
            ],
            Self::ViewGlobalContractCodeByAccountIdSyncCheckpoint {
                account_id,
                sync_checkpoint,
                ..
            } => seq![
                ("account_id"@, account_id.wire()),
                ("sync_checkpoint"@, sync_checkpoint.wire()),
            ],
        }
    }

    /// The JSON object that stands for this query on the wire: its fields,
    /// then `request_type` with the name of its kind of query, whatever the
    /// variant's own `request_type` field holds.
    pub open spec fn wire(self) -> JsonView {
        JsonView::Object(
            self.wire_fields().push(("request_type"@, JsonView::String(self.discriminator()))),
        )
    }

    /// The name of the kind of query that this variant belongs to.
    pub fn kind(&self) -> (r: &'static str)
        ensures
            r@ == self.discriminator(),
    {
        match self {
            Self::ViewAccountFinality { .. }
            | Self::ViewAccountBlockId { .. }
            | Self::ViewAccountSyncCheckpoint { .. } => "view_account",
            Self::ViewCodeFinality { .. }
            | Self::ViewCodeBlockId { .. }
            | Self::ViewCodeSyncCheckpoint { .. } => "view_code",
            Self::ViewStateFinality { .. }
            | Self::ViewStateBlockId { .. }
            | Self::ViewStateSyncCheckpoint { .. } => "view_state",
            Self::ViewAccessKeyFinality { .. }
            | Self::ViewAccessKeyBlockId { .. }
            | Self::ViewAccessKeySyncCheckpoint { .. } => "view_access_key",
            Self::ViewAccessKeyListFinality { .. }
            | Self::ViewAccessKeyListBlockId { .. }
            | Self::ViewAccessKeyListSyncCheckpoint { .. } => "view_access_key_list",
            Self::ViewGasKeyNoncesFinality { .. }
            | Self::ViewGasKeyNoncesBlockId { .. }
            | Self::ViewGasKeyNoncesSyncCheckpoint { .. } => "view_gas_key_nonces",
            Self::CallFunctionFinality { .. }
            | Self::CallFunctionBlockId { .. }
            | Self::CallFunctionSyncCheckpoint { .. } => "call_function",
            Self::ViewGlobalContractCodeFinality { .. }
            | Self::ViewGlobalContractCodeBlockId { .. }
            | Self::ViewGlobalContractCodeSyncCheckpoint { .. } => {
                "view_global_contract_code"
            },
            Self::ViewGlobalContractCodeByAccountIdFinality { .. }
            | Self::ViewGlobalContractCodeByAccountIdBlockId { .. }
            | Self::ViewGlobalContractCodeByAccountIdSyncCheckpoint { .. } => {
                "view_global_contract_code_by_account_id"
            },
        }
    }

    /// The entries that stand for the variant's fields on the wire.
    fn fields_to_json(&self) -> (r: Fields)
        ensures
            entries_view(r.entries@) == self.wire_fields(),
    {
        match self {
            Self::ViewAccountFinality { account_id, finality, .. } => Fields::new()
                .with("account_id", account_id.to_json())
                .with("finality", finality.to_json()),
            Self::ViewAccountBlockId { account_id, block_id, .. } => Fields::new()
                .with("account_id", account_id.to_json())
                .with("block_id", block_id.to_json()),
            Self::ViewAccountSyncCheckpoint { account_id, sync_checkpoint, .. } => Fields::new()
                .with("account_id", account_id.to_json())
                .with("sync_checkpoint", sync_checkpoint.to_json()),
            Self::ViewCodeFinality { account_id, finality, .. } => Fields::new()
                .with("account_id", account_id.to_json())
                .with("finality", finality.to_json()),
            Self::ViewCodeBlockId { account_id, block_id, .. } => Fields::new()
                .with("account_id", account_id.to_json())
                .with("block_id", block_id.to_json()),
            Self::ViewCodeSyncCheckpoint { account_id, sync_checkpoint, .. } => Fields::new()
                .with("account_id", account_id.to_json())
                .with("sync_checkpoint", sync_checkpoint.to_json()),
            Self::ViewStateFinality {
                account_id,
                finality,
                include_proof,
                prefix_base64,
                ..
            } => Fields::new()
                .with("account_id", account_id.to_json())
                .with("finality", finality.to_json())
                .with_flag("include_proof", include_proof)
                .with("prefix_base64", prefix_base64.to_json()),
            Self::ViewStateBlockId {
                account_id,
                block_id,
                include_proof,
                prefix_base64,
                ..
            } => Fields::new()
                .with("account_id", account_id.to_json())
                .with("block_id", block_id.to_json())
                .with_flag("include_proof", include_proof)
                .with("prefix_base64", prefix_base64.to_json()),
            Self::ViewStateSyncCheckpoint {
                account_id,
                include_proof,
                prefix_base64,
                sync_checkpoint,
                ..
            } => Fields::new()
                .with("account_id", account_id.to_json())
                .with_flag("include_proof", include_proof)
                .with("prefix_base64", prefix_base64.to_json())
                .with("sync_checkpoint", sync_checkpoint.to_json()),
            Self::ViewAccessKeyFinality { account_id, finality, public_key, .. } => Fields::new()
                .with("account_id", account_id.to_json())
                .with("finality", finality.to_json())
                .with("public_key", public_key.to_json()),
            Self::ViewAccessKeyBlockId { account_id, block_id, public_key, .. } => Fields::new()
                .with("account_id", account_id.to_json())
                .with("block_id", block_id.to_json())
                .with("public_key", public_key.to_json()),
            Self::ViewAccessKeySyncCheckpoint {
                account_id,
                public_key,
                sync_checkpoint,
                ..
            } => Fields::new()
                .with("account_id", account_id.to_json())
                .with("public_key", public_key.to_json())
                .with("sync_checkpoint", sync_checkpoint.to_json()),
            Self::ViewAccessKeyListFinality { account_id, finality, .. } => Fields::new()
                .with("account_id", account_id.to_json())
                .with("finality", finality.to_json()),
            Self::ViewAccessKeyListBlockId { account_id, block_id, .. } => Fields::new()
                .with("account_id", account_id.to_json())
                .with("block_id", block_id.to_json()),
            Self::ViewAccessKeyListSyncCheckpoint {
                account_id,
                sync_checkpoint,
                ..
            } => Fields::new()
                .with("account_id", account_id.to_json())
                .with("sync_checkpoint", sync_checkpoint.to_json()),
            Self::ViewGasKeyNoncesFinality { account_id, finality, public_key, .. } => Fields::new()
                .with("account_id", account_id.to_json())
                .with("finality", finality.to_json())
                .with("public_key", public_key.to_json()),
            Self::ViewGasKeyNoncesBlockId { account_id, block_id, public_key, .. } => Fields::new()
                .with("account_id", account_id.to_json())
                .with("block_id", block_id.to_json())
                .with("public_key", public_key.to_json()),
            Self::ViewGasKeyNoncesSyncCheckpoint {
                account_id,
                public_key,
                sync_checkpoint,
                ..
            } => Fields::new()
                .with("account_id", account_id.to_json())
                .with("public_key", public_key.to_json())
                .with("sync_checkpoint", sync_checkpoint.to_json()),
            Self::CallFunctionFinality {
                account_id,
                args_base64,
                finality,
                method_name,
                ..
            } => Fields::new()
                .with("account_id", account_id.to_json())
                .with("args_base64", args_base64.to_json())
                .with("finality", finality.to_json())
                .with("method_name", Json::String(method_name.clone())),
            Self::CallFunctionBlockId {
                account_id,
                args_base64,
                block_id,
                method_name,
                ..
            } => Fields::new()
                .with("account_id", account_id.to_json())
                .with("args_base64", args_base64.to_json())
                .with("block_id", block_id.to_json())
                .with("method_name", Json::String(method_name.clone())),
            Self::CallFunctionSyncCheckpoint {
                account_id,
                args_base64,
                method_name,
                sync_checkpoint,
                ..
            } => Fields::new()
                .with("account_id", account_id.to_json())
                .with("args_base64", args_base64.to_json())
                .with("method_name", Json::String(method_name.clone()))
                .with("sync_checkpoint", sync_checkpoint.to_json()),
            Self::ViewGlobalContractCodeFinality { code_hash, finality, .. } => Fields::new()
                .with("code_hash", code_hash.to_json())
                .with("finality", finality.to_json()),
            Self::ViewGlobalContractCodeBlockId { block_id, code_hash, .. } => Fields::new()
                .with("block_id", block_id.to_json())
                .with("code_hash", code_hash.to_json()),
            Self::ViewGlobalContractCodeSyncCheckpoint {
                code_hash,
                sync_checkpoint,
                ..
            } => Fields::new()
                .with("code_hash", code_hash.to_json())
                .with("sync_checkpoint", sync_checkpoint.to_json()),
            Self::ViewGlobalContractCodeByAccountIdFinality {
                account_id,
                finality,
                ..
            } => Fields::new()
                .with("account_id", account_id.to_json())
                .with("finality", finality.to_json()),
            Self::ViewGlobalContractCodeByAccountIdBlockId {
                account_id,
                block_id,
                ..
            } => Fields::new()
                .with("account_id", account_id.to_json())
                .with("block_id", block_id.to_json()),
            Self::ViewGlobalContractCodeByAccountIdSyncCheckpoint {
                account_id,
                sync_checkpoint,
                ..
            } => Fields::new()
                .with("account_id", account_id.to_json())
                .with("sync_checkpoint", sync_checkpoint.to_json()),
        }
    }

    /// The JSON object that stands for this query on the wire.
    pub fn to_json(&self) -> (r: Json)
        ensures
            r@ == self.wire(),
    {
        let fields = self.fields_to_json().with("request_type", Json::string(self.kind()));
        Json::object(fields.entries)
    }
}

} // verus!
