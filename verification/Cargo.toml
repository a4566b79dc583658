[package]
name = "kreivo_signer"
version = "0.1.0"
edition = "2021"
publish = false

[dependencies]
anyhow = "=1.0.104"
bip39 = "=2.2.2"
clap = { version = "=4.6.7", features = ["derive"] }
hex = "=0.4.3"
scale-info = "=2.11.6"
sp-core = "=43.0.0"
subxt = { version = "=0.51.1", default-features = false }
tokio = { version = "=1.53.2", default-features = false, features = ["rt", "macros"] }
