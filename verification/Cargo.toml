[package]
name = "kyoto"
version = "0.1.0"
edition = "2021"
publish = false

[dependencies]
bitcoin = "0.32"
bip324 = "*"
tokio = { version = "1", features = ["rt-multi-thread", "sync", "net", "io-util", "time", "macros"] }
futures = "0.3"
serde = { version = "1", features = ["derive"] }
serde_json = "1"
axum = { version = "0.6", features = ["ws"] }
tracing = "0.1"
tracing-subscriber = "0.3"
