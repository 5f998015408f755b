[package]
name = "pingap_docker_provider"
version = "0.1.0"
edition = "2021"
publish = false

[dependencies]
anyhow = "=1.0.104"
backoff = { version = "=0.4.0", features = ["futures", "tokio"] }
bollard = "=0.21.1"
futures = "=0.3.34"
reqwest = { version = "=0.13.5", default-features = false, features = ["json"] }
serde = { version = "=1.0.229", features = ["derive"] }
serde_json = "=1.0.151"
tokio = { version = "=1.53.2", features = ["macros", "rt-multi-thread", "signal", "time"] }
tracing = "=0.1.44"
tracing-subscriber = "=0.3.23"
