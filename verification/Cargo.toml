[package]
name = "tryfol"
version = "0.1.0"
edition = "2021"
publish = false

[dependencies]
regex = "=1.13.1"
html-escape = "=0.2.15"
tokio = { version = "=1.54.1", features = ["io-util", "net", "rt", "macros", "sync", "time"] }
futures = "=0.3.34"
async-stream = "=0.3.6"
anyhow = "=1.0.104"
thiserror = "=2.0.21"
libc = "=0.2.191"
zbus = { version = "5", default-features = false, features = ["tokio"] }
serde = { version = "1", features = ["derive"] }
serde_json = "1"
log = "0.4"
rtnetlink = "*"
wl-nl80211 = "*"
