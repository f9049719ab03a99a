[package]
name = "permissionless_delegator"
version = "0.1.0"
edition = "2021"
publish = false

[dependencies]
bech32 = "0.9"
lexical-core = "0.7"
nom = "7"
