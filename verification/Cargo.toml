[package]
name = "toaster"
version = "0.1.0"
edition = "2021"
publish = false

[dependencies]
chrono = { version = "=0.4.45", features = ["serde"] }
jwt-compact = "=0.8.0"
uuid = { version = "=1.29.1", features = ["v4"] }
serde = { version = "=1.0.229", features = ["derive"] }
serde_json = "=1.0.154"
anyhow = "=1.0.104"
thiserror = "=2.0.21"
ciborium = "=0.2.2"
async-openai-wasm = { version = "=0.31.2", features = ["chat-completion", "model"] }
opendal = { version = "=0.59.5", default-features = false, features = ["services-fs"] }
tokio = { version = "=1.54.1", features = ["rt-multi-thread", "macros", "time"] }
futures = "=0.3.34"
tracing = "=0.1.44"
once_cell = "=1.21.4"
reqwest = { version = "=0.12.28", default-features = false }
