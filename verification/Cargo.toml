[package]
name = "validate_pgp_server"
version = "0.1.0"
edition = "2021"
publish = false

[dependencies]
anyhow = "1"
async-trait = "0.1"
bufstream = "0.1"
chrono = "0.4"
easy-args = "*"
hex = "0.4"
libc = "0.2"
openssl = "0.10"
sequoia-openpgp = { version = "1", default-features = false, features = ["crypto-openssl", "compression-deflate"] }
serde = { version = "1", features = ["derive"] }
serde_json = "1"
signal-hook = "0.3"
tokio = { version = "1", features = ["rt-multi-thread", "macros", "time"] }
