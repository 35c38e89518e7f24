[package]
name = "wokhei"
version = "0.1.0"
edition = "2021"
publish = false

[dependencies]
agcli = "=0.17.0"
bitcoin_hashes = "=0.14.101"
chrono = "=0.4.45"
clap = { version = "=4.6.7", features = ["derive"] }
dirs = "=7.0.0"
jiff = "=0.2.38"
nostr-sdk = "=0.45.4"
serde = { version = "=1.0.229", features = ["derive"] }
serde_json = "=1.0.151"
thiserror = "=1.0.69"
tokio = { version = "=1.53.2", features = ["rt-multi-thread"] }
