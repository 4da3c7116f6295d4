[package]
name = "beemesh"
version = "0.1.0"
edition = "2021"
publish = false

[dependencies]
base64 = "0.22"
serde = { version = "1", features = ["derive"] }
serde_json = "1"
libp2p = { version = "0.56", default-features = false }
aes-gcm = "0.10"
saorsa-pqc = "*"
blahaj = "*"
rand = "0.8"
log = "0.4"
clap = { version = "4", features = ["derive"] }
