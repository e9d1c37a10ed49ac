[package]
name = "ir_manager"
version = "0.1.0"
edition = "2021"
publish = false

[dependencies]
alloy-primitives = "1"
alloy-sol-types = "1"
alloy = { version = "1", default-features = false, features = ["consensus", "eips", "signers"] }
candid = "0.10"
chrono = "0.4"
evm_rpc_types = "1"
hex = "0.4"
ic-cdk = "*"
ic-cdk-timers = "*"
ic-stable-structures = "0.6"
icrc-ledger-types = "*"
num-traits = "0.2"
rand = "0.8"
rand_chacha = "0.3"
serde = { version = "1", features = ["derive"] }
serde_bytes = "0.11"
serde_json = "1"
