[package]
name = "vvrd"
version = "0.1.0"
edition = "2021"
publish = false

[dependencies]
anyhow = "1"
crossterm = "0.29"
directories = "6"
flume = "=0.12.0"
image = { version = "=0.25.10", default-features = false, features = ["png"] }
md-5 = "=0.10.6"
mupdf = { version = "=0.8.0", default-features = false }
nix = { version = "=0.31.3", features = ["signal"] }
serde = { version = "1", features = ["derive"] }
serde_json = "1"
thiserror = "2"
vivid_protocol = "=1.3.1"
vivid_sdk = "=0.1.2"
