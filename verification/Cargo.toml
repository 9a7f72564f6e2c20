[package]
name = "sherpresent"
version = "0.1.0"
edition = "2021"
publish = false

[dependencies]
base64 = "=0.23.1"
chrono = { version = "=0.4.45", default-features = false, features = ["clock", "std"] }
dirs = "=7.0.0"
evdev = { version = "=0.13.2", features = ["tokio"] }
futures-util = "=0.3.34"
hostname = "=0.4.2"
if-addrs = "=0.15.0"
log = "=0.4.35"
mdns-sd = "=0.21.7"
regex = "=1.13.1"
reqwest = { version = "0.12", default-features = false, features = ["json", "rustls-tls"] }
rosc = "=0.11.4"
serde = { version = "=1.0.229", features = ["derive"] }
serde_json = "=1.0.154"
tokio = { version = "=1.54.1", features = ["rt-multi-thread", "net", "sync", "time", "macros", "process", "io-util", "fs"] }
tokio-tungstenite = { version = "=0.30.0", features = ["rustls-tls-webpki-roots"] }
uuid = { version = "=1.29.0", features = ["v4"] }
