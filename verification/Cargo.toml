[package]
name = "ttry"
version = "0.1.0"
edition = "2021"
publish = false

[dependencies]
clap = { version = "4", features = ["derive"] }
nix = { version = "0.29", features = ["process", "signal"] }
portable-pty = "*"
regex = "1"
serde = { version = "1", features = ["derive"] }
similar = "2"
thiserror = "2"
toml = "0.8"
unicode-width = "0.2"
vte = "0.15"
