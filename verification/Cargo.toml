[package]
name = "ksynth"
version = "0.1.0"
edition = "2021"
publish = false

[dependencies]
anyhow = "1"
base64 = "0.13"
bytes = "1"
capnp = "0.14"
clap = { version = "2", features = ["yaml"] }
ed25519-compact = "2"
etherparse = "0.13"
futures = "0.3"
hex = "0.4"
hmac-sha512 = "1"
http = "0.2"
hyper = { version = "0.14", features = ["full"] }
itoa = "1"
libc = "0.2"
log = "0.4"
nix = "0.23"
parking_lot = "0.12"
rand = "0.8"
raw-socket = "*"
ryu = "1"
serde = { version = "1", features = ["derive"] }
serde_json = "1"
serde_yaml = "0.9"
signal-hook = "0.3"
tokio = { version = "1", features = ["full"] }
tracing = "0.1"
tracing-subscriber = { version = "0.3", features = ["env-filter"] }
yaml-rust = "0.4"
zstd = "0.11"
