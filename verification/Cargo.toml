[package]
name = "near-openrpc-client"
version = "0.1.0"
edition = "2021"
publish = false

[dependencies]
near-gas = "*"
near-token = "*"
prettyplease = "0.2"
reqwest = { version = "0.12", default-features = false, features = ["json", "rustls-tls"] }
serde = { version = "1", features = ["derive"] }
serde_json = "1"
syn = { version = "2", features = ["full"] }
thiserror = "*"
typify = "*"
