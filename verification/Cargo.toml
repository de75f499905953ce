[package]
name = "jellyswarrm"
version = "0.1.0"
edition = "2021"
publish = false

[dependencies]
askama = "=0.14.0"
axum = "=0.8.9"
chrono = { version = "=0.4.45", features = ["serde"] }
fs_extra = "1"
hex = "=0.4.3"
hyper = "=1.12.0"
rand = "=0.9.5"
serde = { version = "=1.0.229", features = ["derive"] }
serde_json = "=1.0.154"
sha1 = "=0.10.7"
tokio = { version = "=1.54.1", features = ["macros", "rt-multi-thread", "sync", "time"] }
tracing = "=0.1.44"
uuid = { version = "=1.29.0", features = ["serde", "v4"] }
