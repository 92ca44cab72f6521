[package]
name = "naumachia"
version = "0.1.0"
edition = "2021"
publish = false

[dependencies]
hex = "=0.4.3"
cardano-multiplatform-lib = "=3.1.3"
bech32 = "=0.7.3"
blockfrost-http-client = "=0.0.14"
serde = { version = "=1.0.229", features = ["derive"] }
serde_json = "=1.0.154"
thiserror = "=1.0.69"
async-trait = "=0.1.92"
futures = "=0.3.34"
