[package]
name = "amulet_core"
version = "0.1.0"
edition = "2021"
publish = false

[dependencies]
blake3 = "1"
sha3 = "0.10"
ed25519-dalek = "2"
p256 = "0.13"
ecdsa = "0.16"
