[package]
name = "super_orchestrator"
version = "0.1.0"
edition = "2021"
publish = false

[dependencies]
tar = "=0.4.46"
uuid = { version = "=1.29.0", features = ["v4"] }
sha3 = "=0.10.9"
tokio = { version = "=1.54.1", features = ["full"] }
bollard = "=0.18.1"
futures = "=0.3.34"
serde = { version = "=1.0.229", features = ["derive"] }
stacked_errors = "=0.8.0"
tracing = "=0.1.44"
musli = { version = "=0.2.1", features = ["descriptive"] }
owo-colors = "=4.4.0"
