[package]
name = "sgl-kv-indexer"
version = "0.1.0"
edition = "2021"
publish = false

[dependencies]
futures = "=0.3.34"
redis = { version = "=0.27.6", features = ["tokio-comp", "connection-manager", "cluster-async"] }
tokio = { version = "=1.54.1", features = ["sync", "time", "rt"] }
tonic = "=0.12.3"
tracing = "=0.1.44"
