[package]
name = "nic_autoswitch"
version = "0.1.0"
edition = "2021"
publish = false

[dependencies]
ipnetwork = "0.20"
serde = { version = "1", features = ["derive"] }
serde_json = "1"
toml = "0.8"
thiserror = "1"
tokio = { version = "1", features = ["full"] }
futures = "0.3"
rtnetlink = "0.14"
netlink-packet-route = "0.19"
hickory-resolver = "0.24"
parking_lot = "0.12"
tracing = "0.1"
tracing-subscriber = { version = "0.3", features = ["env-filter"] }
tracing-journald = "0.3"
signal-hook = "0.3"
signal-hook-tokio = { version = "0.3", features = ["futures-v0_3"] }
clap = { version = "4", features = ["derive"] }
libc = "0.2"
