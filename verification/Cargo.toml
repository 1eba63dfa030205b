[package]
name = "abbs"
version = "0.1.0"
edition = "2021"
publish = false

[dependencies]
agw = "*"
anyhow = "1"
clap = { version = "4", features = ["derive"] }
env_logger = "*"
futures-util = "0.3"
log = "0.4"
mercury-hf = "*"
rusqlite = "*"
tokio = { version = "1", features = ["full"] }
zmodem2 = "*"
