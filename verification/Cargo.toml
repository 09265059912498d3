[package]
name = "message_transport"
version = "0.1.0"
edition = "2021"
publish = false

[dependencies]
bincode = "=1.3.3"
serde = { version = "=1.0.229", features = ["derive"] }
log = { version = "=0.4.34", features = ["std"] }
serde_json = "=1.0.154"
csv = "=1.4.0"
clap = { version = "=4.6.7", features = ["derive"] }
