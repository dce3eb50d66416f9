[package]
name = "yrust_chain"
version = "0.1.0"
edition = "2021"
publish = false

[dependencies]
sha2 = "=0.10.9"
ripemd = "=0.1.3"
bs58 = "=0.5.1"
hex = "=0.4.3"
secp256k1 = { version = "=0.28.2", features = ["rand-std"] }
rand = "=0.8.8"
chrono = "=0.4.45"
num-bigint = "=0.4.8"
uuid = { version = "=1.29.1", features = ["v4"] }
serde = { version = "=1.0.229", features = ["derive"] }
serde_json = "=1.0.154"
wat = "1"
bip39 = { version = "2", features = ["rand"] }
