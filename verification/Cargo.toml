[package]
name = "hypergraph_synergy"
version = "0.1.0"
edition = "2021"
publish = false

[dependencies]
indexmap = "*"
anyhow = "*"
log = "*"
once_cell = "*"
parking_lot = "*"
tokio = { version = "*", default-features = false, features = ["sync"] }
