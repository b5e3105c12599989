[package]
name = "lance-context-core"
version = "0.1.0"
edition = "2021"
publish = false

[dependencies]
arc-swap = "1"
arrow-array = "58"
arrow-json = "58"
arrow-schema = "58"
chrono = "0.4"
datafusion = { version = "53", default-features = false, features = ["sql"] }
futures = "0.3"
serde_json = "1"
tokio = { version = "1", features = ["rt-multi-thread", "sync", "time", "macros"] }
tracing = "0.1"
uuid = { version = "1", features = ["v4", "v5"] }
