[package]
name = "canary"
version = "0.1.0"
edition = "2021"
publish = false

[dependencies]
snow = "0.9"
rand = "0.8"
dashmap = "5"
compact_str = "0.4"
serde = { version = "1", features = ["derive"] }
serde_json = "1"
serde_repr = "0.1"
bincode = "1"
bson = "2"
postcard = { version = "1", features = ["alloc"] }
async-std = { version = "1", features = ["attributes", "unstable"] }
async-tungstenite = { version = "0.17", features = ["async-std-runtime"] }
futures = "0.3"
futures-lite = "1"
async-channel = "1"
tracing = "0.1"
derive_more = "0.99"
cfg-if = "1"
camino = "1"
once_cell = "1"
