[package]
name = "testnet4_miner"
version = "0.1.0"
edition = "2021"
publish = false

[dependencies]
bitcoin = "0.32"
hex = "0.4"
base64 = "0.22"
anyhow = "1"
clap = { version = "4", features = ["derive"] }
env_logger = "0.11"
log = "0.4"
rayon = "1"
serde = { version = "1", features = ["derive"] }
serde_json = "1"
ureq = { version = "2", default-features = false, features = ["json"] }
