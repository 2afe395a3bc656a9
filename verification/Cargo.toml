[package]
name = "sqd_portal_client"
version = "0.1.0"
edition = "2021"
publish = false

[dependencies]
bs58 = "=0.5.1"
rand = "=0.10.3"
reqwest = { version = "=0.13.5", default-features = false, features = ["gzip"] }
tokio = { version = "=1.53.2", features = ["rt", "sync", "time", "macros"] }
simd-json = "=0.18.1"
arrow = "=56.2.1"
cherry-evm-schema = "=0.2.0"
cherry-svm-schema = "=0.2.0"
bytes = "=1.12.1"
log = "=0.4.34"
anyhow = "=1.0.104"
