[package]
name = "bow"
version = "0.1.0"
edition = "2021"
publish = false

[dependencies]
reqwest = { version = "0.12", default-features = false, features = ["blocking", "rustls-tls"] }
serde = { version = "1", features = ["derive"] }
serde_yaml_bw = "*"
sha2 = "0.10"
strum = { version = "*", features = ["derive"] }
tempfile = "3"
yaml-rust2 = "*"
