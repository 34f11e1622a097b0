[package]
name = "marginfi_core"
version = "0.1.0"
edition = "2021"
publish = false

[dependencies]
anchor-lang = "=0.30.1"
anyhow = "=1.0.104"
solana-program = "=1.18.26"
solana-sdk = "=1.18.26"
spl-token-2022 = { version = "=3.0.5", features = ["no-entrypoint"] }
