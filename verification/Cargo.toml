[package]
name = "gtm_hub"
version = "0.1.0"
edition = "2021"
publish = false

[dependencies]
anyhow = "=1.0.104"
clap = { version = "=4.6.7", features = ["derive"] }
dirs = "=7.0.0"
libc = "=0.2.191"
rcgen = { version = "=0.13.2", features = ["x509-parser"] }
rustls = "=0.23.46"
semver = "=1.0.28"
serde = { version = "=1.0.229", features = ["derive"] }
serde_json = "=1.0.154"
sha2 = "=0.10.9"
tokio = { version = "=1.54.1", features = ["full"] }
tokio-rustls = "=0.26.6"
tracing = "=0.1.44"
