[package]
name = "packet_sniffer"
version = "1.0.0"
edition = "2021"
publish = false

[dependencies]
chrono = "*"
csv = "*"
serde = { version = "*", features = ["derive"] }
serde_json = "*"
clap = { version = "*", features = ["derive"] }
colored = "*"
prettytable-rs = "*"
pnet = "*"
dirs = "*"
log = "*"
env_logger = "*"
