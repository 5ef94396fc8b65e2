[package]
name = "privacy_report_anchor"
version = "0.1.0"
edition = "2021"
publish = false

[dependencies]
anchor-lang = "=1.2.1"
solana-pubkey = { version = "=3.0.0", features = ["curve25519"] }

[dev-dependencies]
sha2 = "=0.10.9"
