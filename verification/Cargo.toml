[package]
name = "iscc-sum"
version = "0.1.0"
edition = "2021"
publish = false

[dependencies]
base32 = "0.5"
blake3 = { version = "1", default-features = false, features = ["std", "pure"] }
clap = { version = "4", features = ["derive"] }
globset = "0.4"
unicode-normalization = "0.1"
