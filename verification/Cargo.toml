[package]
name = "breez_ldk"
version = "0.1.0"
edition = "2021"
publish = false

[dependencies]
ldk-node = "0.5"
vss-client = "0.3"
rusqlite = { version = "0.31", features = ["bundled"] }
tokio = { version = "1", features = ["rt-multi-thread", "macros", "sync", "time"] }
anyhow = "1"
async-trait = "0.1"
log = "0.4"
rand = "0.8"
futures = "0.3"
serde_json = "1"
