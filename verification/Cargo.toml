[package]
name = "solana_token_info"
version = "0.1.0"
edition = "2021"
publish = false

[dependencies]
mpl-token-metadata = "=5.1.1"
serde_json = "=1.0.151"
solana-program = "=2.3.0"
reqwest = { version = "=0.13.5", default-features = false }
tokio = { version = "=1.53.2", features = ["macros", "rt-multi-thread"] }
trust-dns-resolver = "=0.23.2"
argh = "=0.1.19"
futures = "=0.3.34"
base64 = "=0.23.1"
