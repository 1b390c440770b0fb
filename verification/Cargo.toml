[package]
name = "statemachine"
version = "0.1.0"
edition = "2021"

[dependencies]
serde = { version = "=1.0.229", features = ["derive"] }
serde_yaml = "=0.9.34"
poem = { version = "*", features = ["websocket"] }
tokio = { version = "1", features = ["rt-multi-thread", "macros", "sync"] }
futures-util = "0.3"
tracing-subscriber = "0.3"
