[package]
name = "inbound_index"
version = "0.1.0"
edition = "2021"
publish = false

[dependencies]
ahash = "=0.8.12"
parking_lot = "=0.12.5"
tokio = { version = "=1.54.1", default-features = false, features = ["sync"] }
kubert = { version = "0.21", default-features = false, features = ["index"] }
k8s-gateway-api = "0.16"
k8s-openapi = { version = "0.20", features = ["v1_28"] }
tracing = "0.1"
