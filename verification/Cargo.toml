[package]
name = "sa_token_core"
version = "0.1.0"
edition = "2021"
publish = false

[dependencies]
chrono = "=0.4.45"
rand = "=0.10.3"
regex = "=1.13.1"
urlencoding = "=2.1.3"
serde = { version = "=1.0.229", features = ["derive"] }
serde_json = "=1.0.154"
moka = { version = "=0.12.16", features = ["future"] }
tokio = { version = "=1.54.1", features = ["rt", "rt-multi-thread", "sync", "time", "macros"] }
redis = { version = "*", features = ["tokio-comp", "connection-manager"] }
futures-util = "*"
