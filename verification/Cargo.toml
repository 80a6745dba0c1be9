[package]
name = "argonaut"
version = "0.9.0"
edition = "2021"
publish = false

[dependencies]
anyhow = "1"
chrono = "0.4"
serde = { version = "1", features = ["derive"] }
serde_json = "1"
nix = { version = "*", features = ["signal", "process"] }
tracing = "0.1"
libro = "*"

[dev-dependencies]
tempfile = "3"
