[package]
name = "mkt4u_blockchain"
version = "0.1.0"
edition = "2021"
publish = false

[dependencies]
anyhow = "1"
bs58 = "0.5"
chrono = "0.4"
dotenv = "0.15"
env_logger = "0.11"
log = "0.4"
serde = { version = "1", features = ["derive"] }
serde_json = "1"
sha2 = "0.10"
thiserror = "1"
