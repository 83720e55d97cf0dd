[package]
name = "gateway_proxy"
version = "0.1.0"
edition = "2021"
publish = false

[dependencies]
bytes = "1"
http-body-util = "0.1"
hyper = "1"
serde = { version = "1", features = ["derive"] }
serde_json = "1"
tokio = { version = "1", features = ["rt"] }
tracing = "0.1"
twilight-cache-inmemory = "0.16"
twilight-http = { version = "0.16", default-features = false }
twilight-model = "0.16"
twilight-util = { version = "0.16", features = ["builder", "link"] }
