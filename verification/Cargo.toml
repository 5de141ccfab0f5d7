[package]
name = "forc_perf"
version = "0.1.0"
edition = "2021"
publish = false

[dependencies]
crossbeam-channel = "=0.5.17"
serde = { version = "=1.0.229", features = ["derive"] }
serde_json = "=1.0.151"
sysinfo = { version = "=0.31.4", features = ["serde"] }
walkdir = "=2.5.0"
