[package]
name = "execpolicy"
version = "0.1.0"
edition = "2021"
publish = false

[dependencies]
regex-lite = "0.1"
anyhow = "1"
clap = { version = "4", features = ["derive"] }
serde = { version = "1", features = ["derive"] }
serde_json = "1"
thiserror = "2"
