[package]
name = "runtime"
version = "0.1.0"
edition = "2021"
publish = false

[dependencies]
async-trait = "=0.1.92"
futures = "=0.3.34"
serde = { version = "=1.0.229", features = ["derive"] }
serde_json = { version = "=1.0.154", features = ["raw_value"] }
thiserror = "=2.0.21"
tokio = { version = "=1.54.1", features = ["sync", "time", "rt", "macros"] }
uuid = { version = "=1.29.0", features = ["v4"] }
redis = { version = "=1.8.1", features = ["tokio-comp", "connection-manager"] }

[dev-dependencies]
serde_json = "=1.0.154"
