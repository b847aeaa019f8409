[package]
name = "mostro"
version = "0.1.0"
edition = "2021"
publish = false

[dependencies]
easy-hasher = "*"
lightning-invoice = "*"
rand = "0.8"
anyhow = "1"
log = "0.4"
dotenvy = "*"
tokio = { version = "1", features = ["rt-multi-thread", "macros", "sync"] }
tonic_openssl_lnd = "*"
