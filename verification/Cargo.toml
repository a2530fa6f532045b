[package]
name = "icrc7"
version = "0.1.0"
edition = "2021"
publish = false

[dependencies]
icrc-ledger-types = "*"
candid = "*"
serde = { version = "*", features = ["derive"] }
serde_bytes = "*"
ciborium = "*"
ic-cdk = "*"
ic-cdk-macros = "*"
