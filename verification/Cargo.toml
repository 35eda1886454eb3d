[package]
name = "libdl"
version = "0.1.0"
edition = "2021"
publish = false

[dependencies]
base64 = "=0.22.1"
bytes = "=1.12.1"
clap = { version = "=4.6.7", features = ["derive"] }
dialoguer = "=0.11.0"
fastrand = "=2.5.0"
futures-util = "=0.3.34"
indicatif = "=0.17.11"
librqbit = { version = "=8.1.1", default-features = false, features = ["rust-tls"] }
reqwest = { version = "=0.12.28", default-features = false, features = ["charset", "http2", "rustls-tls", "stream"] }
serde = { version = "=1.0.229", features = ["derive"] }
serde_json = "=1.0.154"
tokio = { version = "=1.54.1", features = ["fs", "io-util", "macros", "net", "rt-multi-thread", "signal", "sync", "time"] }
tracing = "=0.1.44"
url = "=2.5.8"
windows-sys = { version = "=0.59.0", features = ["Win32_Globalization"] }
