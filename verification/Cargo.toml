[package]
name = "raft_visualizer"
version = "0.1.0"
edition = "2021"
publish = false

[dependencies]
act-zero = "0.3"
async-trait = "0.1"
conrod_core = "0.70"
futures = "0.3"
serde = { version = "1", features = ["derive"] }
serde_json = "1"
tokio = { version = "0.2", features = ["full"] }
