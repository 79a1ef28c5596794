[package]
name = "fe-php"
version = "0.1.0"
edition = "2021"
publish = false

[dependencies]
regex = "=1.13.1"
urlencoding = "=2.1.3"
memchr = "=2.8.3"
num_cpus = "=1.17.0"
rand = "=0.10.3"
anyhow = "=1.0.104"
thiserror = "=2.0.21"
serde = { version = "=1.0.229", features = ["derive"] }
serde_json = "=1.0.154"
toml = "=1.1.8"
clap = { version = "=4.6.7", features = ["derive"] }
tokio = { version = "=1.54.1", features = ["full"] }
tracing = "=0.1.44"
prometheus = { version = "=0.14.0", default-features = false }
chrono = { version = "=0.4.45", features = ["serde"] }
uuid = { version = "=1.29.0", features = ["v4"] }
parking_lot = "=0.13.0"
async-channel = "=2.5.0"
socket2 = "=0.6.5"
bytes = "=1.12.1"
hdrhistogram = { version = "=7.6.0", default-features = false }
reqwest = { version = "=0.13.5", default-features = false }
axum = "=0.8.9"
hyper = { version = "=1.12.0", features = ["server", "http1"] }
hyper-util = { version = "=0.1.21", features = ["tokio"] }
http-body-util = "=0.1.5"
maxminddb = "=0.32.0"
libloading = "=0.9.0"
libc = "=0.2.191"
redis = { version = "*", features = ["tokio-comp", "connection-manager"] }
