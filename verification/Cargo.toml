[package]
name = "dendrite"
version = "0.1.0"
edition = "2021"
publish = false

[dependencies]
anyhow = "=1.0.104"
async-channel = "=1.9.0"
async-lock = "=2.8.0"
async-stream = "=0.3.6"
async-trait = "=0.1.92"
base64 = "=0.22.1"
bytes = "=1.12.1"
elasticsearch = { version = "=8.5.0-alpha.1", default-features = false, features = ["rustls-tls"] }
futures-core = "=0.3.34"
futures-util = "=0.3.34"
http = "=0.2.12"
jwt = "=0.16.0"
lazy_static = "=1.5.1"
log = "=0.4.35"
lru = "=0.10.1"
mongodb = "=2.8.2"
prost = "=0.11.9"
regex = "=1.13.1"
rsa = "=0.7.2"
serde = { version = "=1.0.229", features = ["derive"] }
serde_json = "=1.0.154"
sha2 = { version = "=0.10.9", features = ["oid"] }
sshkeys = "=0.3.4"
tokio = { version = "=1.54.1", features = ["macros", "rt-multi-thread", "signal", "sync", "time"] }
tonic = "=0.9.2"
uuid = { version = "=1.29.1", features = ["v4"] }
