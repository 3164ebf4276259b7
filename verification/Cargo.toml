[package]
name = "mining_worker"
version = "0.1.0"
edition = "2021"
publish = false

[dependencies]
base64 = "0.22"
clap = { version = "4", features = ["derive"] }
core_affinity = "0.8"
drillx_2 = "*"
futures-util = "0.3"
indicatif = "0.17"
reqwest = "0.12"
solana-sdk = "1.18"
tokio = { version = "1", features = ["full"] }
tokio-tungstenite = { version = "0.23", features = ["native-tls"] }
url = "2"
