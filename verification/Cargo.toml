[package]
name = "canopen-rs"
version = "0.1.0"
edition = "2021"
publish = false

[dependencies]
anyhow = "1"
clap = { version = "4", features = ["derive"] }
embedded-can = "0.4"
heapless = "0.8"
socketcan = { version = "3", features = ["tokio"] }
