[package]
name = "netprobe"
version = "0.1.0"
edition = "2021"
publish = false

[dependencies]
anyhow = "1"
etherparse = "*"
log = "0.4"
raw-socket = "*"
tokio = { version = "1", features = ["rt", "sync", "time"] }
