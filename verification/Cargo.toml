[package]
name = "locker"
version = "0.1.0"
edition = "2021"
publish = false

[dependencies]
bytes-utils = "0.1"
log = "0.4"
rand = "0.8"
tokio = { version = "1", features = ["macros", "rt", "sync", "time"] }
