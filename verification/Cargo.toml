[package]
name = "vnt_dns"
version = "0.1.0"
edition = "2021"
publish = false

[dependencies]
clap = { version = "=4.5.61", features = ["derive"] }
serde = { version = "=1.0.229", features = ["derive"] }
serde_json = "=1.0.151"
signal-hook = "=0.3.18"
tokio = { version = "=1.45.1", features = ["rt-multi-thread", "net", "sync", "time", "macros"] }
trust-dns-server = "=0.23.2"
