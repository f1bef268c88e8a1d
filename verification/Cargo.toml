[package]
name = "flashwright"
version = "1.0.0"
edition = "2021"
publish = false

[dependencies]
anyhow = "1"
base64 = "0.22"
libc = "0.2"
serde_json = "1"
tokio = { version = "1", features = ["fs", "io-util", "macros", "net", "process", "rt-multi-thread", "sync", "time"] }
