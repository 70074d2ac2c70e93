[package]
name = "supvan"
version = "0.1.0"
edition = "2021"
publish = false

[dependencies]
clap = { version = "4", features = ["derive"] }
env_logger = "0.11"
ipp-printer-app = "*"
liblzma = { version = "0.4", features = ["static"] }
log = "0.4"
tokio = { version = "1", features = ["rt", "sync", "time"] }
