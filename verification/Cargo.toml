[package]
name = "recalc_core"
version = "0.1.0"
edition = "2021"
publish = false

[dependencies]
csv = "1"
chrono = "0.4"
log = "0.4"
env_logger = "0.11"
serde = { version = "1", features = ["derive"] }
tokio = { version = "1", features = ["sync", "rt", "macros"] }
