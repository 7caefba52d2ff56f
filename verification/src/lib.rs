//! Bindings for the JSON-RPC interface of the NEAR Protocol, with the build
//! steps that derive them from the interface description.
//!
//! The crate has three parts, each with contracts that are proved of it:
//!
//! - [`schema`] prepares the schemas of an interface description for a type
//!   emitter: references become local, intersections of references are
//!   expanded into unions of merged alternatives, and literal discriminators
//!   become defaulted enumerations.
//! - [`codegen`] rewrites the emitted source: the discriminator fields leave
//!   the variants of the designated unions, which get an encoder and a
//!   decoder of their own. [`variant`] holds what is known of a union's
//!   variants, and [`codec`] what the generated encoder and decoder do, with
//!   the laws that hold of them.
//! - [`types`], [`query_helpers`], [`token_helpers`] and [`client`] are the
//!   bindings themselves: the query request and its constructors, token and
//!   gas amounts, and the requests and answers of a client.
//!
//! [`json`], [`text`] and [`decimal`] hold the data structures underneath.
//! Reading files, the type emitter and the HTTP transport are left to the
//! caller.

pub mod client;
pub mod codec;
pub mod codegen;
pub mod decimal;
pub mod json;
pub mod query_helpers;
pub mod schema;
pub mod text;
pub mod token_helpers;
pub mod types;
pub mod variant;

pub use client::NearRpcClient;
pub use json::Json;
pub use query_helpers::BlockReference;
pub use types::AccountId;
pub use types::BlockId;
pub use types::CryptoHash;
pub use types::Finality;
pub use types::FunctionArgs;
pub use types::NearGas;
pub use types::NearToken;
pub use types::PublicKey;
pub use types::RpcQueryRequest;
pub use types::StoreKey;
pub use types::SyncCheckpoint;
