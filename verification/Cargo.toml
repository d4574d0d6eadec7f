[package]
name = "matrix-chatgpt"
version = "0.1.0"
edition = "2021"
publish = false

[dependencies]
anyhow = "=1.0.104"
async-openai = "=0.9.5"
matrix-sdk = { version = "=0.6.2", default-features = false, features = ["markdown", "native-tls"] }
ruma = { version = "=0.7.4", features = ["unstable-msc2676"] }
serde_json = "=1.0.154"
tokio = { version = "=1.54.1", features = ["macros", "rt-multi-thread", "time"] }
tracing = "=0.1.44"
tracing-subscriber = "=0.3.23"
