[package]
name = "judge-server"
version = "0.1.0"
edition = "2021"
publish = false

[dependencies]
async-global-executor = "2"
axum = "0.6"
futures-lite = "1"
lapin = { version = "2", default-features = false }
libc = "0.2"
seccomp-sys = "0.1"
seccompiler = "*"
serde = { version = "1", features = ["derive"] }
serde_json = "1"
tokio = { version = "1", features = ["full"] }
tracing = "0.1"
tracing-subscriber = "0.3"
