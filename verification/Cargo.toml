[package]
name = "vlaude_core"
version = "0.1.0"
edition = "2021"
publish = false

[dependencies]
serde_json = "*"
chrono = "*"
serde = { version = "*", features = ["derive"] }
tokio = { version = "*", features = ["full"] }
anyhow = "*"
thiserror = "*"
tracing = "*"
tracing-subscriber = "*"
clap = { version = "*", features = ["derive"] }
hostname = "*"
native-tls = "*"
notify = "*"
notify-debouncer-mini = "*"
redis = { version = "*", features = ["tokio-comp"] }
rust_socketio = { version = "*", features = ["async"] }
futures = "*"
