[package]
name = "unidrive-mount"
version = "0.1.0"
edition = "2021"
publish = false

[dependencies]
bytes = "1"
fuse3 = { version = "0.9", features = ["tokio-runtime", "unprivileged"] }
futures-util = "0.3"
libc = "0.2"
serde_json = "=1.0.154"
tokio = { version = "1", features = ["full"] }
tracing = "0.1"
tracing-appender = "0.2"
tracing-subscriber = { version = "0.3", features = ["env-filter"] }
