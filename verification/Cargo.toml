[package]
name = "smarthub"
version = "0.1.0"
edition = "2021"
publish = false

[dependencies]
aes-gcm = "0.10"
base64 = "0.22"
rand = "0.8"
sha2 = "0.10"
uuid = { version = "1", features = ["v4"] }
blake3 = "1"
anyhow = "1"
serde = { version = "1", features = ["derive"] }
serde_json = "1"
rusqlite = { version = "0.31", features = ["bundled"] }
keyring = "3"
reqwest = { version = "0.12", default-features = false, features = ["json"] }
tokio = { version = "1", features = ["rt-multi-thread", "time", "macros", "fs", "io-util"] }
arboard = "3"
walkdir = "2"
parking_lot = "0.12"
