[package]
name = "ts_query_client"
version = "0.1.0"
edition = "2021"
publish = false

[dependencies]
anyhow = "*"
chrono = "*"
clap = { version = "*", features = ["cargo", "env"] }
env_logger = "*"
kstool = "*"
log = "*"
rustyline = "*"
tempfile = "*"
tokio = { version = "*", features = ["full"] }
