[package]
name = "memfaultd"
version = "0.1.0"
edition = "2021"
publish = false

[dependencies]
crc = "=3.4.0"
crc-catalog = "=2.5.0"
itertools = "=0.15.0"
uuid = { version = "=1.29.0", features = ["v4"] }
serde = { version = "=1.0.229", features = ["derive"] }
serde_json = "=1.0.154"
chrono = "=0.4.45"
eyre = "=0.6.14"
log = "=0.4.35"
nix = { version = "*", features = ["fs"] }
tiny_http = "*"
