[package]
name = "privaxy"
version = "0.1.0"
edition = "2021"
publish = false

[dependencies]
adblock = "=0.8.12"
crossbeam-channel = "=0.5.17"
dirs = "=7.0.0"
futures = "=0.3.34"
hex = "=0.4.3"
hyper = { version = "=0.14.32", features = ["full"] }
log = "=0.4.34"
openssl = "=0.10.81"
reqwest = { version = "=0.12.28", default-features = false, features = ["rustls-tls", "gzip", "brotli", "deflate"] }
# Not used directly: holds the transitive rmp at the last version the
# rmp-serde line adblock requires still compiles against.
rmp = "=0.8.10"
serde = { version = "=1.0.229", features = ["derive"] }
serde_json = "=1.0.151"
sha2 = "=0.11.0"
thiserror = "=2.0.21"
tokio = { version = "=1.53.2", features = ["full"] }
tokio-rustls = "=0.26.6"
toml = "=1.1.6"
url = "=2.5.8"
