[package]
name = "remote_play"
version = "0.1.0"
edition = "2021"
publish = false

[dependencies]
bincode = "1.3"
serde = { version = "1", features = ["derive"] }
tokio = { version = "1", features = ["net", "rt-multi-thread", "macros", "sync", "time", "io-util", "process"] }
opus = "0.3"
cpal = "0.17"
crossbeam-channel = "0.5"
rand = "0.8"
