[package]
name = "mosaic_cli"
version = "0.1.0"
edition = "2021"
publish = false

[dependencies]
solana-sdk = "3.0.0"
solana-sdk-ids = "3.1.0"
hex = "0.4.3"
pinocchio = "0.10.2"
anyhow = "1.0.104"
clap = { version = "4.5.61", features = ["derive"] }
figment = { version = "0.10.19", features = ["toml", "env"] }
serde = { version = "1.0.229", features = ["derive"] }
serde_json = "1.0.154"
tokio = { version = "1.50.0", features = ["macros", "rt-multi-thread"] }
tracing = "0.1.44"
tracing-subscriber = "0.3.23"

[dev-dependencies]
borsh = "1.5.7"
