[package]
name = "civic_transfer_hook"
version = "0.1.0"
edition = "2021"
publish = false

[dependencies]
solana-program = "=2.0.25"
solana-gateway = { version = "=0.6.0", features = ["no-entrypoint"] }
spl-token-2022 = { version = "=5.0.2", features = ["no-entrypoint"] }
spl-transfer-hook-interface = "=0.8.2"
clap = "=3.2.25"

[dev-dependencies]
spl-discriminator = "=0.3.0"
spl-tlv-account-resolution = "=0.8.1"
