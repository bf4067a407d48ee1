[package]
name = "talk"
version = "0.1.0"
edition = "2021"
publish = false

[dependencies]
aho-corasick = "=1.1.5"
regex = "=1.13.1"
uuid = { version = "=1.29.0", features = ["v4", "serde"] }
chrono = { version = "=0.4.45", features = ["serde"] }
serde = { version = "=1.0.229", features = ["derive"] }
serde_json = "=1.0.154"
thiserror = "=1.0.69"
async-trait = "=0.1.92"
futures = "=0.3.34"
tokio = { version = "=1.54.1", features = ["sync", "time", "rt", "macros"] }
tracing = "=0.1.44"
async-openai = { version = "=0.42.2", default-features = false, features = ["rustls", "chat-completion"] }
anthropic-sdk = "=0.1.5"
