[package]
name = "modmod"
version = "0.1.0"
edition = "2021"
publish = false

[dependencies]
globset = "=0.4.20"
similar = { version = "=3.2.0", features = ["bytes"] }
serde_json = "=1.0.151"
serde = { version = "=1.0.229", features = ["derive"] }
toml = "=1.1.7"
clap = { version = "=4.6.7", features = ["derive"] }
fs_extra = "=1.3.0"
