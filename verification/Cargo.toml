[package]
name = "orga"
version = "0.1.0"
edition = "2021"
publish = false

[dependencies]
rust_decimal = "=1.43.0"
sha2 = "=0.10.9"
ripemd = "=0.1.3"
bech32 = "=0.9.1"
num-rational = "=0.4.2"
secp256k1 = "=0.27.0"
rand = "=0.8.8"
tendermint = "0.23"
