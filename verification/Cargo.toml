[package]
name = "block_production"
version = "0.1.0"
edition = "2021"
publish = false

[dependencies]
anyhow = "1"
async-trait = "0.1"
futures = "0.3"
rayon = "1"
serde = { version = "1", features = ["derive"] }
starknet-types-core = "=0.1.7"
starknet_api = "=0.13.0-rc.1"
tokio = { version = "1", features = ["sync", "time", "rt", "macros"] }
tracing = "0.1"
