[package]
name = "eth_relay_core"
version = "0.1.0"
edition = "2021"
publish = false

[dependencies]
k256 = "0.13"
sha3 = "0.10"

[dev-dependencies]
alloy-rlp = "*"
