[package]
name = "transfer_hook_max_account_test"
version = "0.1.0"
edition = "2021"
publish = false

[dependencies]
solana-program = "*"
spl-transfer-hook-interface = "*"

[dev-dependencies]
spl-tlv-account-resolution = "*"
