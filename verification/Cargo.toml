[package]
name = "rs_platform_explorer"
version = "0.1.0"
edition = "2021"
publish = false

[dependencies]
hex = "0.4.3"
bs58 = "0.5.1"
sha2 = "0.10.9"
serde = { version = "1", features = ["derive"] }
serde_json = "1"
thiserror = "1.0.69"
rand = "0.8"
