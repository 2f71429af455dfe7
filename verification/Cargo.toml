[package]
name = "vllm-server"
version = "0.1.0"
edition = "2021"
publish = false

[dependencies]
axum = "=0.8.9"
http-body = "=1.1.0"
indexmap = "=2.14.2"
llm-multimodal = "=1.8.0"
ndarray = "=0.17.2"
prost-types = "=0.14.4"
rmp-serde = "1"
serde = { version = "=1.0.229", features = ["derive"] }
serde_json = "=1.0.154"
serde_tuple = "1"
thiserror = "=2.0.21"
thiserror-ext = "=0.3.0"
tokio = { version = "=1.54.1", features = ["rt", "sync", "time", "macros", "fs"] }
tonic = { version = "=0.14.9", default-features = false }
uuid = { version = "=1.29.0", features = ["v4"] }
