[package]
name = "pubsub_core"
version = "0.1.0"
edition = "2021"
publish = false

[dependencies]
tokio = { version = "=1.54.1", features = ["rt", "rt-multi-thread", "macros", "sync", "time"] }
clap = { version = "=4.6.7", features = ["derive", "env"] }
humantime = "=2.4.0"
rand = "=0.10.3"
futures = "0.3"
