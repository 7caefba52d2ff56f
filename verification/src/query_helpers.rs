//! Constructors for [`RpcQueryRequest`] that pick the variant for the given
//! block reference and fill in `request_type`.

use vstd::prelude::*;
use vstd::std_specs::convert::FromSpecImpl;
use crate::types::{
    AccountId, BlockId, CryptoHash, Finality, FunctionArgs, PublicKey, RpcQueryRequest, StoreKey,
    SyncCheckpoint,
};

verus! {

/// How to reference a specific block for a query.
#[derive(Clone, Debug)]
pub enum BlockReference {
    /// A finality level.
    Finality(Finality),
    /// A block height or hash.
    BlockId(BlockId),
    /// A sync checkpoint.
    SyncCheckpoint(SyncCheckpoint),
}

impl From<Finality> for BlockReference {
    fn from(value: Finality) -> (r: Self) {
        BlockReference::Finality(value)
    }
}

impl FromSpecImpl<Finality> for BlockReference {
    open spec fn obeys_from_spec() -> bool {
        true
    }

    open spec fn from_spec(value: Finality) -> Self {
        BlockReference::Finality(value)
    }
}

impl From<BlockId> for BlockReference {
    fn from(value: BlockId) -> (r: Self) {
        BlockReference::BlockId(value)
    }
}

impl FromSpecImpl<BlockId> for BlockReference {
    open spec fn obeys_from_spec() -> bool {
        true
    }

    open spec fn from_spec(value: BlockId) -> Self {
        BlockReference::BlockId(value)
    }
}

impl From<SyncCheckpoint> for BlockReference {
    fn from(value: SyncCheckpoint) -> (r: Self) {
        BlockReference::SyncCheckpoint(value)
    }
}

impl FromSpecImpl<SyncCheckpoint> for BlockReference {
    open spec fn obeys_from_spec() -> bool {
        true
    }

    open spec fn from_spec(value: SyncCheckpoint) -> Self {
        BlockReference::SyncCheckpoint(value)
    }
}

impl RpcQueryRequest {
    /// Whether this is the `view_account` query made of the given parts: the
    /// variant for the kind of block reference, holding the parts as they are,
    /// with `request_type` set to `view_account`.
    pub open spec fn is_view_account(
        self,
        account_id: AccountId,
        block_ref: BlockReference,
    ) -> bool {
        match block_ref {
            BlockReference::Finality(finality) => {
                self matches Self::ViewAccountFinality {
                    account_id: got_account_id,
                    finality: got_finality,
                    request_type: got_request_type,
                } && got_account_id == account_id
                    && got_finality == finality
                    && got_request_type@ == "view_account"@
            },
            BlockReference::BlockId(block_id) => {
                self matches Self::ViewAccountBlockId {
                    account_id: got_account_id,
                    block_id: got_block_id,
                    request_type: got_request_type,
                } && got_account_id == account_id
                    && got_block_id == block_id
                    && got_request_type@ == "view_account"@
            },
            BlockReference::SyncCheckpoint(sync_checkpoint) => {
                self matches Self::ViewAccountSyncCheckpoint {
                    account_id: got_account_id,
                    request_type: got_request_type,
                    sync_checkpoint: got_sync_checkpoint,
                } && got_account_id == account_id
                    && got_request_type@ == "view_account"@
                    && got_sync_checkpoint == sync_checkpoint
            },
        }
    }

    /// A query for basic information about an account, at the block that
    /// `block_ref` names. The parts are what the arguments convert into.
    pub fn view_account<A: Into<AccountId>, B: Into<BlockReference>>(
        account_id: A,
        block_ref: B,
    ) -> (r: Self)
        ensures
            r.discriminator() == "view_account"@,
            r.request_type() == "view_account"@,
            exists|
                account_id_part: AccountId,
                block_ref_part: BlockReference,
            |
                call_ensures(A::into, (account_id,), account_id_part)
                    && call_ensures(B::into, (block_ref,), block_ref_part)
                    && r.is_view_account(account_id_part, block_ref_part),
    {
        let account_id: AccountId = account_id.into();
        let block_ref: BlockReference = block_ref.into();
        let r = match block_ref {
            BlockReference::Finality(finality) => Self::ViewAccountFinality {
                account_id,
                finality,
                request_type: "view_account".to_string(),
            },
            BlockReference::BlockId(block_id) => Self::ViewAccountBlockId {
                account_id,
                block_id,
                request_type: "view_account".to_string(),
            },
            BlockReference::SyncCheckpoint(sync_checkpoint) => Self::ViewAccountSyncCheckpoint {
                account_id,
                request_type: "view_account".to_string(),
                sync_checkpoint,
            },
        };
        assert(r.is_view_account(account_id, block_ref));
        r
    }

    /// Whether this is the `view_code` query made of the given parts: the
    /// variant for the kind of block reference, holding the parts as they are,
    /// with `request_type` set to `view_code`.
    pub open spec fn is_view_code(
        self,
        account_id: AccountId,
        block_ref: BlockReference,
    ) -> bool {
        match block_ref {
            BlockReference::Finality(finality) => {
                self matches Self::ViewCodeFinality {
                    account_id: got_account_id,
                    finality: got_finality,
                    request_type: got_request_type,
                } && got_account_id == account_id
                    && got_finality == finality
                    && got_request_type@ == "view_code"@
            },
            BlockReference::BlockId(block_id) => {
                self matches Self::ViewCodeBlockId {
                    account_id: got_account_id,
                    block_id: got_block_id,
                    request_type: got_request_type,
                } && got_account_id == account_id
                    && got_block_id == block_id
                    && got_request_type@ == "view_code"@
            },
            BlockReference::SyncCheckpoint(sync_checkpoint) => {
                self matches Self::ViewCodeSyncCheckpoint {
                    account_id: got_account_id,
                    request_type: got_request_type,
                    sync_checkpoint: got_sync_checkpoint,
                } && got_account_id == account_id
                    && got_request_type@ == "view_code"@
                    && got_sync_checkpoint == sync_checkpoint
            },
        }
    }

    /// A query for the contract code deployed to an account, at the block that
    /// `block_ref` names. The parts are what the arguments convert into.
    pub fn view_code<A: Into<AccountId>, B: Into<BlockReference>>(
        account_id: A,
        block_ref: B,
    ) -> (r: Self)
        ensures
            r.discriminator() == "view_code"@,
            r.request_type() == "view_code"@,
            exists|
                account_id_part: AccountId,
                block_ref_part: BlockReference,
            |
                call_ensures(A::into, (account_id,), account_id_part)
                    && call_ensures(B::into, (block_ref,), block_ref_part)
                    && r.is_view_code(account_id_part, block_ref_part),
    {
        let account_id: AccountId = account_id.into();
        let block_ref: BlockReference = block_ref.into();
        let r = match block_ref {
            BlockReference::Finality(finality) => Self::ViewCodeFinality {
                account_id,
                finality,
                request_type: "view_code".to_string(),
            },
            BlockReference::BlockId(block_id) => Self::ViewCodeBlockId {
                account_id,
                block_id,
                request_type: "view_code".to_string(),
            },
            BlockReference::SyncCheckpoint(sync_checkpoint) => Self::ViewCodeSyncCheckpoint {
                account_id,
                request_type: "view_code".to_string(),
                sync_checkpoint,
            },
        };
        assert(r.is_view_code(account_id, block_ref));
        r
    }

    /// Whether this is the `view_state` query made of the given parts: the
    /// variant for the kind of block reference, holding the parts as they are,
    /// with `request_type` set to `view_state` and `include_proof` left unset.
    pub open spec fn is_view_state(
        self,
        account_id: AccountId,
        prefix_base64: StoreKey,
        block_ref: BlockReference,
    ) -> bool {
        match block_ref {
            BlockReference::Finality(finality) => {
                self matches Self::ViewStateFinality {
                    account_id: got_account_id,
                    finality: got_finality,
                    include_proof: got_include_proof,
                    prefix_base64: got_prefix_base64,
                    request_type: got_request_type,
                } && got_account_id == account_id
                    && got_finality == finality
                    && got_include_proof is None
                    && got_prefix_base64 == prefix_base64
                    && got_request_type@ == "view_state"@
            },
            BlockReference::BlockId(block_id) => {
                self matches Self::ViewStateBlockId {
                    account_id: got_account_id,
                    block_id: got_block_id,
                    include_proof: got_include_proof,
                    prefix_base64: got_prefix_base64,
                    request_type: got_request_type,
                } && got_account_id == account_id
                    && got_block_id == block_id
                    && got_include_proof is None
                    && got_prefix_base64 == prefix_base64
                    && got_request_type@ == "view_state"@
            },
            BlockReference::SyncCheckpoint(sync_checkpoint) => {
                self matches Self::ViewStateSyncCheckpoint {
                    account_id: got_account_id,
                    include_proof: got_include_proof,
                    prefix_base64: got_prefix_base64,
                    request_type: got_request_type,
                    sync_checkpoint: got_sync_checkpoint,
                } && got_account_id == account_id
                    && got_include_proof is None
                    && got_prefix_base64 == prefix_base64
                    && got_request_type@ == "view_state"@
                    && got_sync_checkpoint == sync_checkpoint
            },
        }
    }

    /// A query for the contract state of an account under a key prefix, at the
    /// block that `block_ref` names. `include_proof` is left unset; build the
    /// variant directly to set it. The parts are what the arguments convert
    /// into.
    pub fn view_state<A: Into<AccountId>, B: Into<BlockReference>>(
        account_id: A,
        prefix_base64: StoreKey,
        block_ref: B,
    ) -> (r: Self)
        ensures
            r.discriminator() == "view_state"@,
            r.request_type() == "view_state"@,
            exists|
                account_id_part: AccountId,
                block_ref_part: BlockReference,
            |
                call_ensures(A::into, (account_id,), account_id_part)
                    && call_ensures(B::into, (block_ref,), block_ref_part)
                    && r.is_view_state(account_id_part, prefix_base64, block_ref_part),
    {
        let account_id: AccountId = account_id.into();
        let block_ref: BlockReference = block_ref.into();
        let r = match block_ref {
            BlockReference::Finality(finality) => Self::ViewStateFinality {
                account_id,
                finality,
                include_proof: None,
                prefix_base64,
                request_type: "view_state".to_string(),
            },
            BlockReference::BlockId(block_id) => Self::ViewStateBlockId {
                account_id,
                block_id,
                include_proof: None,
                prefix_base64,
                request_type: "view_state".to_string(),
            },
            BlockReference::SyncCheckpoint(sync_checkpoint) => Self::ViewStateSyncCheckpoint {
                account_id,
                include_proof: None,
                prefix_base64,
                request_type: "view_state".to_string(),
                sync_checkpoint,
            },
        };
        assert(r.is_view_state(account_id, prefix_base64, block_ref));
        r
    }

    /// Whether this is the `view_access_key` query made of the given parts: the
    /// variant for the kind of block reference, holding the parts as they are,
    /// with `request_type` set to `view_access_key`.
    pub open spec fn is_view_access_key(
        self,
        account_id: AccountId,
        public_key: PublicKey,
        block_ref: BlockReference,
    ) -> bool {
        match block_ref {
            BlockReference::Finality(finality) => {
                self matches Self::ViewAccessKeyFinality {
                    account_id: got_account_id,
                    finality: got_finality,
                    public_key: got_public_key,
                    request_type: got_request_type,
                } && got_account_id == account_id
                    && got_finality == finality
                    && got_public_key == public_key
                    && got_request_type@ == "view_access_key"@
            },
            BlockReference::BlockId(block_id) => {
                self matches Self::ViewAccessKeyBlockId {
                    account_id: got_account_id,
                    block_id: got_block_id,
                    public_key: got_public_key,
                    request_type: got_request_type,
                } && got_account_id == account_id
                    && got_block_id == block_id
                    && got_public_key == public_key
                    && got_request_type@ == "view_access_key"@
            },
            BlockReference::SyncCheckpoint(sync_checkpoint) => {
                self matches Self::ViewAccessKeySyncCheckpoint {
                    account_id: got_account_id,
                    public_key: got_public_key,
                    request_type: got_request_type,
                    sync_checkpoint: got_sync_checkpoint,
                } && got_account_id == account_id
                    && got_public_key == public_key
                    && got_request_type@ == "view_access_key"@
                    && got_sync_checkpoint == sync_checkpoint
            },
        }
    }

    /// A query for one access key of an account, at the block that `block_ref`
    /// names. The parts are what the arguments convert into.
    pub fn view_access_key<A: Into<AccountId>, K: Into<PublicKey>, B: Into<BlockReference>>(
        account_id: A,
        public_key: K,
        block_ref: B,
    ) -> (r: Self)
        ensures
            r.discriminator() == "view_access_key"@,
            r.request_type() == "view_access_key"@,
            exists|
                account_id_part: AccountId,
                public_key_part: PublicKey,
                block_ref_part: BlockReference,
            |
                call_ensures(A::into, (account_id,), account_id_part)
                    &&
                call_ensures(K::into, (public_key,), public_key_part)
                    && call_ensures(B::into, (block_ref,), block_ref_part)
                    && r.is_view_access_key(account_id_part, public_key_part, block_ref_part),
    {
        let account_id: AccountId = account_id.into();
        let public_key: PublicKey = public_key.into();
        let block_ref: BlockReference = block_ref.into();
        let r = match block_ref {
            BlockReference::Finality(finality) => Self::ViewAccessKeyFinality {
                account_id,
                finality,
                public_key,
                request_type: "view_access_key".to_string(),
            },
            BlockReference::BlockId(block_id) => Self::ViewAccessKeyBlockId {
                account_id,
                block_id,
                public_key,
                request_type: "view_access_key".to_string(),
            },
            BlockReference::SyncCheckpoint(sync_checkpoint) => Self::ViewAccessKeySyncCheckpoint {
                account_id,
                public_key,
                request_type: "view_access_key".to_string(),
                sync_checkpoint,
            },
        };
        assert(r.is_view_access_key(account_id, public_key, block_ref));
        r
    }

    /// Whether this is the `view_access_key_list` query made of the given
    /// parts: the variant for the kind of block reference, holding the parts as
    /// they are, with `request_type` set to `view_access_key_list`.
    pub open spec fn is_view_access_key_list(
        self,
        account_id: AccountId,
        block_ref: BlockReference,
    ) -> bool {
        match block_ref {
            BlockReference::Finality(finality) => {
                self matches Self::ViewAccessKeyListFinality {
                    account_id: got_account_id,
                    finality: got_finality,
                    request_type: got_request_type,
                } && got_account_id == account_id
                    && got_finality == finality
                    && got_request_type@ == "view_access_key_list"@
            },
            BlockReference::BlockId(block_id) => {
                self matches Self::ViewAccessKeyListBlockId {
                    account_id: got_account_id,
                    block_id: got_block_id,
                    request_type: got_request_type,
                } && got_account_id == account_id
                    && got_block_id == block_id
                    && got_request_type@ == "view_access_key_list"@
            },
            BlockReference::SyncCheckpoint(sync_checkpoint) => {
                self matches Self::ViewAccessKeyListSyncCheckpoint {
                    account_id: got_account_id,
                    request_type: got_request_type,
                    sync_checkpoint: got_sync_checkpoint,
                } && got_account_id == account_id
                    && got_request_type@ == "view_access_key_list"@
                    && got_sync_checkpoint == sync_checkpoint
            },
        }
    }

    /// A query for all access keys of an account, at the block that `block_ref`
    /// names. The parts are what the arguments convert into.
    pub fn view_access_key_list<A: Into<AccountId>, B: Into<BlockReference>>(
        account_id: A,
        block_ref: B,
    ) -> (r: Self)
        ensures
            r.discriminator() == "view_access_key_list"@,
            r.request_type() == "view_access_key_list"@,
            exists|
                account_id_part: AccountId,
                block_ref_part: BlockReference,
            |
                call_ensures(A::into, (account_id,), account_id_part)
                    && call_ensures(B::into, (block_ref,), block_ref_part)
                    && r.is_view_access_key_list(account_id_part, block_ref_part),
    {
        let account_id: AccountId = account_id.into();
        let block_ref: BlockReference = block_ref.into();
        let r = match block_ref {
            BlockReference::Finality(finality) => Self::ViewAccessKeyListFinality {
                account_id,
                finality,
                request_type: "view_access_key_list".to_string(),
            },
            BlockReference::BlockId(block_id) => Self::ViewAccessKeyListBlockId {
                account_id,
                block_id,
                request_type: "view_access_key_list".to_string(),
            },
            BlockReference::SyncCheckpoint(sync_checkpoint) => {
                Self::ViewAccessKeyListSyncCheckpoint {
                    account_id,
                    request_type: "view_access_key_list".to_string(),
                    sync_checkpoint,
                }
            },
        };
        assert(r.is_view_access_key_list(account_id, block_ref));
        r
    }

    /// Whether this is the `view_gas_key_nonces` query made of the given parts:
    /// the variant for the kind of block reference, holding the parts as they
    /// are, with `request_type` set to `view_gas_key_nonces`.
    pub open spec fn is_view_gas_key_nonces(
        self,
        account_id: AccountId,
        public_key: PublicKey,
        block_ref: BlockReference,
    ) -> bool {
        match block_ref {
            BlockReference::Finality(finality) => {
                self matches Self::ViewGasKeyNoncesFinality {
                    account_id: got_account_id,
                    finality: got_finality,
                    public_key: got_public_key,
                    request_type: got_request_type,
                } && got_account_id == account_id
                    && got_finality == finality
                    && got_public_key == public_key
                    && got_request_type@ == "view_gas_key_nonces"@
            },
            BlockReference::BlockId(block_id) => {
                self matches Self::ViewGasKeyNoncesBlockId {
                    account_id: got_account_id,
                    block_id: got_block_id,
                    public_key: got_public_key,
                    request_type: got_request_type,
                } && got_account_id == account_id
                    && got_block_id == block_id
                    && got_public_key == public_key
                    && got_request_type@ == "view_gas_key_nonces"@
            },
            BlockReference::SyncCheckpoint(sync_checkpoint) => {
                self matches Self::ViewGasKeyNoncesSyncCheckpoint {
                    account_id: got_account_id,
                    public_key: got_public_key,
                    request_type: got_request_type,
                    sync_checkpoint: got_sync_checkpoint,
                } && got_account_id == account_id
                    && got_public_key == public_key
                    && got_request_type@ == "view_gas_key_nonces"@
                    && got_sync_checkpoint == sync_checkpoint
            },
        }
    }

    /// A query for the nonces of a gas key of an account, at the block that
    /// `block_ref` names. The parts are what the arguments convert into.
    pub fn view_gas_key_nonces<A: Into<AccountId>, K: Into<PublicKey>, B: Into<BlockReference>>(
        account_id: A,
        public_key: K,
        block_ref: B,
    ) -> (r: Self)
        ensures
            r.discriminator() == "view_gas_key_nonces"@,
            r.request_type() == "view_gas_key_nonces"@,
            exists|
                account_id_part: AccountId,
                public_key_part: PublicKey,
                block_ref_part: BlockReference,
            |
                call_ensures(A::into, (account_id,), account_id_part)
                    &&
                call_ensures(K::into, (public_key,), public_key_part)
                    && call_ensures(B::into, (block_ref,), block_ref_part)
                    && r.is_view_gas_key_nonces(account_id_part, public_key_part, block_ref_part),
    {
        let account_id: AccountId = account_id.into();
        let public_key: PublicKey = public_key.into();
        let block_ref: BlockReference = block_ref.into();
        let r = match block_ref {
            BlockReference::Finality(finality) => Self::ViewGasKeyNoncesFinality {
                account_id,
                finality,
                public_key,
                request_type: "view_gas_key_nonces".to_string(),
            },
            BlockReference::BlockId(block_id) => Self::ViewGasKeyNoncesBlockId {
                account_id,
                block_id,
                public_key,
                request_type: "view_gas_key_nonces".to_string(),
            },
            BlockReference::SyncCheckpoint(sync_checkpoint) => {
                Self::ViewGasKeyNoncesSyncCheckpoint {
                    account_id,
                    public_key,
                    request_type: "view_gas_key_nonces".to_string(),
                    sync_checkpoint,
                }
            },
        };
        assert(r.is_view_gas_key_nonces(account_id, public_key, block_ref));
        r
    }

    /// Whether this is the `call_function` query made of the given parts: the
    /// variant for the kind of block reference, holding the parts as they are,
    /// with `request_type` set to `call_function`.
    pub open spec fn is_call_function(
        self,
        account_id: AccountId,
        method_name: String,
        args_base64: FunctionArgs,
        block_ref: BlockReference,
    ) -> bool {
        match block_ref {
            BlockReference::Finality(finality) => {
                self matches Self::CallFunctionFinality {
                    account_id: got_account_id,
                    args_base64: got_args_base64,
                    finality: got_finality,
                    method_name: got_method_name,
                    request_type: got_request_type,
                } && got_account_id == account_id
                    && got_args_base64 == args_base64
                    && got_finality == finality
                    && got_method_name == method_name
                    && got_request_type@ == "call_function"@
            },
            BlockReference::BlockId(block_id) => {
                self matches Self::CallFunctionBlockId {
                    account_id: got_account_id,
                    args_base64: got_args_base64,
                    block_id: got_block_id,
                    method_name: got_method_name,
                    request_type: got_request_type,
                } && got_account_id == account_id
                    && got_args_base64 == args_base64
                    && got_block_id == block_id
                    && got_method_name == method_name
                    && got_request_type@ == "call_function"@
            },
            BlockReference::SyncCheckpoint(sync_checkpoint) => {
                self matches Self::CallFunctionSyncCheckpoint {
                    account_id: got_account_id,
                    args_base64: got_args_base64,
                    method_name: got_method_name,
                    request_type: got_request_type,
                    sync_checkpoint: got_sync_checkpoint,
                } && got_account_id == account_id
                    && got_args_base64 == args_base64
                    && got_method_name == method_name
                    && got_request_type@ == "call_function"@
                    && got_sync_checkpoint == sync_checkpoint
            },
        }
    }

    /// A query for the result of a view call on a contract, at the block that
    /// `block_ref` names. The parts are what the arguments convert into.
    pub fn call_function<
        A: Into<AccountId>,
        M: Into<String>,
        F: Into<FunctionArgs>,
        B: Into<BlockReference>,
    >(
        account_id: A,
        method_name: M,
        args_base64: F,
        block_ref: B,
    ) -> (r: Self)
        ensures
            r.discriminator() == "call_function"@,
            r.request_type() == "call_function"@,
            exists|
                account_id_part: AccountId,
                method_name_part: String,
                args_base64_part: FunctionArgs,
                block_ref_part: BlockReference,
            |
                call_ensures(A::into, (account_id,), account_id_part)
                    &&
                call_ensures(M::into, (method_name,), method_name_part)
                    &&
                call_ensures(F::into, (args_base64,), args_base64_part)
                    && call_ensures(B::into, (block_ref,), block_ref_part)
                    && r.is_call_function(
                        account_id_part,
                        method_name_part,
                        args_base64_part,
                        block_ref_part,
                    ),
    {
        let account_id: AccountId = account_id.into();
        let method_name: String = method_name.into();
        let args_base64: FunctionArgs = args_base64.into();
        let block_ref: BlockReference = block_ref.into();
        let r = match block_ref {
            BlockReference::Finality(finality) => Self::CallFunctionFinality {
                account_id,
                args_base64,
                finality,
                method_name,
                request_type: "call_function".to_string(),
            },
            BlockReference::BlockId(block_id) => Self::CallFunctionBlockId {
                account_id,
                args_base64,
                block_id,
                method_name,
                request_type: "call_function".to_string(),
            },
            BlockReference::SyncCheckpoint(sync_checkpoint) => Self::CallFunctionSyncCheckpoint {
                account_id,
                args_base64,
                method_name,
                request_type: "call_function".to_string(),
                sync_checkpoint,
            },
        };
        assert(r.is_call_function(account_id, method_name, args_base64, block_ref));
        r
    }

    /// Whether this is the `view_global_contract_code` query made of the given
    /// parts: the variant for the kind of block reference, holding the parts as
    /// they are, with `request_type` set to `view_global_contract_code`.
    pub open spec fn is_view_global_contract_code(
        self,
        code_hash: CryptoHash,
        block_ref: BlockReference,
    ) -> bool {
        match block_ref {
            BlockReference::Finality(finality) => {
                self matches Self::ViewGlobalContractCodeFinality {
                    code_hash: got_code_hash,
                    finality: got_finality,
                    request_type: got_request_type,
                } && got_code_hash == code_hash
                    && got_finality == finality
                    && got_request_type@ == "view_global_contract_code"@
            },
            BlockReference::BlockId(block_id) => {
                self matches Self::ViewGlobalContractCodeBlockId {
                    block_id: got_block_id,
                    code_hash: got_code_hash,
                    request_type: got_request_type,
                } && got_block_id == block_id
                    && got_code_hash == code_hash
                    && got_request_type@ == "view_global_contract_code"@
            },
            BlockReference::SyncCheckpoint(sync_checkpoint) => {
                self matches Self::ViewGlobalContractCodeSyncCheckpoint {
                    code_hash: got_code_hash,
                    request_type: got_request_type,
                    sync_checkpoint: got_sync_checkpoint,
                } && got_code_hash == code_hash
                    && got_request_type@ == "view_global_contract_code"@
                    && got_sync_checkpoint == sync_checkpoint
            },
        }
    }

    /// A query for the code of a global contract, by code hash, at the block
    /// that `block_ref` names. The parts are what the arguments convert into.
    pub fn view_global_contract_code<H: Into<CryptoHash>, B: Into<BlockReference>>(
        code_hash: H,
        block_ref: B,
    ) -> (r: Self)
        ensures
            r.discriminator() == "view_global_contract_code"@,
            r.request_type() == "view_global_contract_code"@,
            exists|
                code_hash_part: CryptoHash,
                block_ref_part: BlockReference,
            |
                call_ensures(H::into, (code_hash,), code_hash_part)
                    && call_ensures(B::into, (block_ref,), block_ref_part)
                    && r.is_view_global_contract_code(code_hash_part, block_ref_part),
    {
        let code_hash: CryptoHash = code_hash.into();
        let block_ref: BlockReference = block_ref.into();
        let r = match block_ref {
            BlockReference::Finality(finality) => Self::ViewGlobalContractCodeFinality {
                code_hash,
                finality,
                request_type: "view_global_contract_code".to_string(),
            },
            BlockReference::BlockId(block_id) => Self::ViewGlobalContractCodeBlockId {
                block_id,
                code_hash,
                request_type: "view_global_contract_code".to_string(),
            },
            BlockReference::SyncCheckpoint(sync_checkpoint) => {
                Self::ViewGlobalContractCodeSyncCheckpoint {
                    code_hash,
                    request_type: "view_global_contract_code".to_string(),
                    sync_checkpoint,
                }
            },
        };
        assert(r.is_view_global_contract_code(code_hash, block_ref));
        r
    }

    /// Whether this is the `view_global_contract_code_by_account_id` query made
    /// of the given parts: the variant for the kind of block reference, holding
    /// the parts as they are, with `request_type` set to
    /// `view_global_contract_code_by_account_id`.
    pub open spec fn is_view_global_contract_code_by_account_id(
        self,
        account_id: AccountId,
        block_ref: BlockReference,
    ) -> bool {
        match block_ref {
            BlockReference::Finality(finality) => {
                self matches Self::ViewGlobalContractCodeByAccountIdFinality {
                    account_id: got_account_id,
                    finality: got_finality,
                    request_type: got_request_type,
                } && got_account_id == account_id
                    && got_finality == finality
                    && got_request_type@ == "view_global_contract_code_by_account_id"@
            },
            BlockReference::BlockId(block_id) => {
                self matches Self::ViewGlobalContractCodeByAccountIdBlockId {
                    account_id: got_account_id,
                    block_id: got_block_id,
                    request_type: got_request_type,
                } && got_account_id == account_id
                    && got_block_id == block_id
                    && got_request_type@ == "view_global_contract_code_by_account_id"@
            },
            BlockReference::SyncCheckpoint(sync_checkpoint) => {
                self matches Self::ViewGlobalContractCodeByAccountIdSyncCheckpoint {
                    account_id: got_account_id,
                    request_type: got_request_type,
                    sync_checkpoint: got_sync_checkpoint,
                } && got_account_id == account_id
                    && got_request_type@ == "view_global_contract_code_by_account_id"@
                    && got_sync_checkpoint == sync_checkpoint
            },
        }
    }

    /// A query for the code of a global contract, by the account that published
    /// it, at the block that `block_ref` names. The parts are what the
    /// arguments convert into.
    pub fn view_global_contract_code_by_account_id<A: Into<AccountId>, B: Into<BlockReference>>(
        account_id: A,
        block_ref: B,
    ) -> (r: Self)
        ensures
            r.discriminator() == "view_global_contract_code_by_account_id"@,
            r.request_type() == "view_global_contract_code_by_account_id"@,
            exists|
                account_id_part: AccountId,
                block_ref_part: BlockReference,
            |
                call_ensures(A::into, (account_id,), account_id_part)
                    && call_ensures(B::into, (block_ref,), block_ref_part)
                    && r.is_view_global_contract_code_by_account_id(
                        account_id_part,
                        block_ref_part,
                    ),
    {
        let account_id: AccountId = account_id.into();
        let block_ref: BlockReference = block_ref.into();
        let r = match block_ref {
            BlockReference::Finality(finality) => Self::ViewGlobalContractCodeByAccountIdFinality {
                account_id,
                finality,
                request_type: "view_global_contract_code_by_account_id".to_string(),
            },
            BlockReference::BlockId(block_id) => Self::ViewGlobalContractCodeByAccountIdBlockId {
                account_id,
                block_id,
                request_type: "view_global_contract_code_by_account_id".to_string(),
            },
            BlockReference::SyncCheckpoint(sync_checkpoint) => {
                Self::ViewGlobalContractCodeByAccountIdSyncCheckpoint {
                    account_id,
                    request_type: "view_global_contract_code_by_account_id".to_string(),
                    sync_checkpoint,
                }
            },
        };
        assert(r.is_view_global_contract_code_by_account_id(account_id, block_ref));
        r
    }
}

} // verus!
