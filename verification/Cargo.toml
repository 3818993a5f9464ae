[package]
name = "netpup"
version = "0.1.0"
edition = "2021"
publish = false

[dependencies]
chrono = "=0.4.45"
clap = "=4.6.7"
mlua = { version = "=0.10.5", features = ["lua54", "vendored", "send"] }
serde = { version = "=1.0.229", features = ["derive"] }
toml = { version = "=0.8.23", features = ["preserve_order"] }
