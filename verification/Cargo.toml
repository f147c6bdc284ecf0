[package]
name = "nostr_signer"
version = "0.1.0"
edition = "2021"
publish = false

[dependencies]
nostr = { version = "=0.45.5", features = ["nip04", "nip46"] }
nostr-sdk = "=0.45.4"
secp256k1 = "=0.30.0"
tokio = { version = "=1.53.2", features = ["rt-multi-thread", "macros"] }
dialoguer = "=0.12.0"
futures = "*"
