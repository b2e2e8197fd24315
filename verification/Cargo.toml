[package]
name = "llm-reasoning-proxy"
version = "0.1.0"
edition = "2021"
publish = false

[dependencies]
async-stream = "0.3"
axum = { version = "0.8", default-features = false, features = ["http1", "tokio"] }
bytes = "1"
clap = { version = "4", features = ["derive"] }
futures = "0.3"
http-body-util = "0.1"
reqwest = { version = "0.12", default-features = false, features = ["rustls-tls", "stream"] }
serde_json = "1"
tokio = { version = "1", features = ["macros", "net", "rt-multi-thread"] }
tokio-util = { version = "0.7", features = ["codec", "io"] }
tracing = "0.1"
tracing-subscriber = "0.3"
