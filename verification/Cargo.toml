[package]
name = "multisig_derive"
version = "0.1.0"
edition = "2021"
publish = false

[dependencies]
bitcoin = "0.30"
miniscript = "10"
secp256k1 = "0.27"
sha2 = "0.10"
dotenv = "0.15"
