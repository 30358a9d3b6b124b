[package]
name = "lnd_wallet"
version = "0.1.0"
edition = "2021"
publish = false

[dependencies]
qrcodegen = "=1.8.0"
lnd-rust = "=0.5.0"
grpc = "=0.6.2"
bytes = "=0.4.12"
