[package]
name = "kconfq"
version = "1.0.0"
edition = "2021"
publish = false

[dependencies]
nix = { version = "*", default-features = false, features = ["feature"] }
flate2 = "1"
clap = { version = "4", features = ["derive"] }
anyhow = "1"
thiserror = "*"
