[package]
name = "clara"
version = "0.1.0"
edition = "2021"
publish = false

[dependencies]
anyhow = "1"
async-trait = "0.1"
base64 = "=0.22.1"
chrono = { version = "=0.4.45", features = ["serde"] }
dotenv = "0.15"
env_logger = "0.11"
log = "0.4"
reqwest = "0.11"
rig-core = "0.5.0"
serde = { version = "1", features = ["derive"] }
serde_json = "1"
thiserror = "1"
tokio = { version = "=1.54.1", features = ["full"] }
