[package]
name = "backend"
version = "0.1.0"
edition = "2021"
publish = false

[dependencies]
actix-web = "4"
futures = "0.3"
log = "0.4"
ollama-rs = { version = "=0.2.1", features = ["stream", "chat-history"] }
pyo3 = { version = "0.22", features = ["auto-initialize"] }
reqwest = { version = "0.12", features = ["json"] }
serde = { version = "1", features = ["derive"] }
tokio = { version = "1", features = ["full"] }
tokio-stream = "0.1"
