[package]
name = "embedded-perfmon"
version = "0.1.0"
edition = "2021"
publish = false

[dependencies]
heapless = "0.9"
hash32 = "0.3"
postcard = { version = "1", features = ["use-std"] }
serde = { version = "1", features = ["derive"] }
serde_json = "1"
clap = { version = "4", features = ["derive"] }
anyhow = "1"
critical-section = { version = "1", features = ["std"] }
embassy-executor = "*"
