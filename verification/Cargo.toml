[package]
name = "unicast"
version = "0.1.0"
edition = "2021"
publish = false

[dependencies]
axum = { version = "=0.8.9", default-features = false, features = ["http1", "tokio"] }
libc = "=0.2.191"
mdns-sd = "=0.21.7"
percent-encoding = "=2.3.2"
plist = "=1.10.3"
quick-xml = "=0.42.0"
rand = "=0.10.3"
reqwest = { version = "=0.13.5", default-features = false }
rust_cast = { version = "=0.21.0", features = ["thread_safe"] }
rustls = "=0.23.46"
serde = { version = "=1.0.229", features = ["derive"] }
serde_json = "=1.0.154"
socket2 = "=0.6.5"
tokio = { version = "=1.54.1", features = ["full"] }
tokio-util = { version = "=0.7.20", features = ["io"] }
tracing = "=0.1.44"
tracing-subscriber = { version = "=0.3.23", features = ["env-filter"] }
url = "=2.5.8"
uuid = { version = "=1.29.0", features = ["v4"] }
zbus = { version = "=6.2.1", default-features = false, features = ["proxy", "tokio"] }
