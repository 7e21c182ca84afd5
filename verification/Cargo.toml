[package]
name = "canister_tools"
version = "0.1.0"
edition = "2021"
publish = false

[dependencies]
ic-stable-structures = "*"
ic-cdk = "*"
candid = "*"
serde = { version = "*", features = ["derive"] }
serde_bytes = "*"
bincode = "1"
