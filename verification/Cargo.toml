[package]
name = "p2p_handshake"
version = "0.1.0"
edition = "2021"
publish = false

[dependencies]
aes = "0.8"
ctr = "0.9"
sha3 = "0.10"
sha2 = "0.10"
hmac = "0.12"
secp256k1 = { version = "0.28", features = ["rand-std"] }
k256 = "0.13"
rand = "0.8"
tokio = { version = "1", features = ["net", "io-util", "time", "rt-multi-thread", "macros"] }
clap = { version = "4", features = ["derive"] }
anyhow = "1"
env_logger = "0.11"

[dev-dependencies]
rlp = "0.5"
hex = "0.4"
web3-hash-utils = "*"
