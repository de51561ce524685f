[package]
name = "bum"
version = "0.1.0"
edition = "2021"
publish = false

[dependencies]
serde_json = "1"
zip = { version = "0.6", default-features = false, features = ["deflate"] }
reqwest = { version = "0.11", default-features = false }
tokio = { version = "1", features = ["rt-multi-thread", "macros", "fs", "process", "io-util"] }
clap = { version = "4", features = ["derive"] }
owo-colors = "3"
resolve-path = "0.1"
anyhow = "1"
