[package]
name = "port_kill"
version = "0.1.0"
edition = "2021"
publish = false

[dependencies]
serde = { version = "*", features = ["derive"] }
serde_json = "*"
nix = { version = "*", features = ["signal"] }
