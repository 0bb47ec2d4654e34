[package]
name = "gsc_fq"
version = "0.1.0"
edition = "2021"
publish = false

[dependencies]
ring = "=0.17.14"
sha2 = "=0.10.9"
data-encoding = "=2.11.1"
qrcode = { version = "=0.14.1", default-features = false }
rand = "=0.9.5"
nix = { version = "=0.29.0", features = ["fs", "resource"] }
toml = "=0.8.23"
serde = { version = "=1.0.229", features = ["derive"] }
serde_json = "=1.0.154"
bincode = "=1.3.3"
tokio = { version = "=1.54.1", features = ["full"] }
uuid = { version = "1", features = ["v4"] }
yamux = "0.13"
tokio-util = { version = "0.7", features = ["compat"] }
futures = "0.3"
clap = { version = "4", features = ["derive"] }
daemonize = "0.5"
socket2 = "0.5"
thiserror = "1"
