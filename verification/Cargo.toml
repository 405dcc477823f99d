[package]
name = "nanvix_bench"
version = "0.1.0"
edition = "2021"
publish = false

[dependencies]
anyhow = "1"
flexi_logger = "*"
indicatif = "*"
log = "0.4"
nix = { version = "*", features = ["signal", "process"] }
