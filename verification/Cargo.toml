[package]
name = "txcore"
version = "0.1.0"
edition = "2021"
publish = false

[dependencies]
sha2 = "=0.10.9"
threshold_crypto = "=0.4.0"
bincode = "=1.3.3"
