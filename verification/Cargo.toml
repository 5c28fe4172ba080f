[package]
name = "clawpal"
version = "0.1.0"
edition = "2021"
publish = false

[dependencies]
async-trait = "0.1"
base64 = "0.22"
chrono = "0.4"
dirs = "5"
ed25519-dalek = { version = "2", features = ["pkcs8", "pem"] }
futures-util = "0.3"
hostname = "0.4"
indexmap = "2"
json5 = "0.4"
regex = "1"
russh = "0.45"
russh-sftp = "2.0"
serde = { version = "1", features = ["derive"] }
serde_json = "1"
shellexpand = "3"
tokio = { version = "1", features = ["full"] }
tokio-tungstenite = "0.24"
uuid = { version = "1", features = ["v4"] }
