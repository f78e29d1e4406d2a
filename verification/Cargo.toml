[package]
name = "dreas"
version = "0.1.0"
edition = "2021"
publish = false

[dependencies]
base64 = "0.21"
chrono = { version = "0.4", features = ["serde"] }
uuid = { version = "1", features = ["v4", "serde"] }
serde = { version = "1", features = ["derive"] }
serde_json = "1"
thiserror = "1"
tokio = { version = "1", features = ["sync", "rt", "rt-multi-thread", "macros", "signal", "time"] }
tracing = "0.1"
tracing-subscriber = "0.3"
config = { version = "0.14", default-features = false, features = ["toml"] }
