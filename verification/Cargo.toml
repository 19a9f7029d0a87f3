[package]
name = "hash_graph"
version = "0.1.0"
edition = "2021"
publish = false

[dependencies]
uuid = "1"
serde = { version = "1", features = ["derive"] }
serde_json = "1"
axum = "0.7"
futures = "0.3"
async-trait = "0.1"
