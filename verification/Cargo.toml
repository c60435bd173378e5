[package]
name = "conclave"
version = "0.1.0"
edition = "2021"
publish = false

[dependencies]
ed25519-dalek = "2"
bip39 = "2"
hex = "0.4"
uuid = { version = "1", features = ["v4", "serde"] }
rand = "0.8"
serde = { version = "1", features = ["derive"] }
serde_json = "1"
toml = "0.8"
libloading = "0.8"
libc = "0.2"
rusqlite = { version = "0.31", features = ["bundled"] }
clap = { version = "4", features = ["derive"] }
dirs = "5"
chrono = "0.4"
tokio = { version = "1", features = ["full"] }
futures = "0.3"
tracing = "0.1"
thiserror = "1"
libp2p = { version = "0.53", features = ["tokio", "tcp", "quic", "dns", "noise", "yamux", "identify", "ping", "mdns", "request-response", "json", "macros", "ed25519"] }
