[package]
name = "vault_core"
version = "0.1.0"
edition = "2021"
publish = false

[dependencies]
solana-program = "=1.18.26"

[dev-dependencies]
borsh = "=0.10.4"
