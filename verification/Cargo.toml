[package]
name = "soxy"
version = "0.1.0"
edition = "2021"
publish = false

[dependencies]
crossbeam-channel = "*"
network-interface = "*"
local-ip-address = "*"
copyrs = "*"
dirs = "*"
serde = { version = "*", features = ["derive"] }
toml = "*"
simplelog = "*"
log = "*"
