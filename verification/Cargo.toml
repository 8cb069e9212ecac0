[package]
name = "consensus_core"
version = "0.1.0"
edition = "2021"
publish = false

[dependencies]
async-trait = "*"
futures = "*"
papyrus_config = "*"
serde = { version = "*", features = ["derive"] }
starknet_api = "*"
thiserror = "*"
