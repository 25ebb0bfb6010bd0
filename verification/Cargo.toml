[package]
name = "baml_ir"
version = "0.1.0"
edition = "2021"
publish = false

[dependencies]
indexmap = "*"
serde = { version = "*", features = ["derive"] }
serde_json = "*"
tokio = { version = "*", features = ["net", "io-util", "rt", "sync", "time", "macros"] }
colored = "*"
chrono = "*"
