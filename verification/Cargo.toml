[package]
name = "nft_trader"
version = "0.1.0"
edition = "2021"
publish = false

[dependencies]
ink = "=4.3.0"
polymesh-ink = { version = "=3.1.0", default-features = false, features = ["as-library"] }
parity-scale-codec = { version = "=3.7.5", features = ["derive"] }
scale-info = { version = "=2.11.6", features = ["derive"] }
