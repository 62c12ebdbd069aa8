[package]
name = "rust_extensions"
version = "0.1.5"
edition = "2021"
publish = false

[dependencies]
chrono = "0.4"
serde = { version = "1", features = ["derive"] }
tokio = { version = "1", features = ["rt", "rt-multi-thread", "time", "sync", "macros"] }
futures = "0.3"
parking_lot = "0.12"
async-trait = "0.1"

[dev-dependencies]
serde_json = "1"
