[package]
name = "graph_client"
version = "0.1.0"
edition = "2021"
publish = false

[dependencies]
uuid = "*"
serde_json = "*"
threadpool = "*"
tonic = "*"
tokio = { version = "*", features = ["rt-multi-thread", "sync"] }
tokio-stream = "*"
bytes = "*"
