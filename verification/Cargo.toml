[package]
name = "bop"
version = "0.1.0"
edition = "2021"
publish = false

[dependencies]
chrono = "0.4"
clap = { version = "4", features = ["derive"] }
clap_complete = "4"
colored = "2"
dirs = "5"
nix = { version = "0.29", features = ["user"] }
serde = { version = "1", features = ["derive"] }
serde_json = "1"
toml = "0.8"
