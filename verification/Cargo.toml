[package]
name = "status_blocks"
version = "0.1.0"
edition = "2021"
publish = false

[dependencies]
async-trait = "=0.1.92"
crossbeam-channel = "=0.5.17"
libc = "=0.2.191"
serde = "=1.0.229"
serde_derive = "=1.0.229"
serde_json = "=1.0.154"
tokio = { version = "=1.54.1", default-features = false, features = ["io-std", "io-util", "macros", "process", "rt", "signal", "sync", "time"] }
