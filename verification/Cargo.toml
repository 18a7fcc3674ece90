[package]
name = "jinxcore"
version = "0.1.0"
edition = "2021"
publish = false

[dependencies]
log = "0.4"
meval = "0.2"
rand = "0.8"
reqwest = { version = "0.12", default-features = false, features = ["blocking", "json", "rustls-tls"] }
serde = { version = "1", features = ["derive"] }
serde_yaml = "0.9"
serenity = { version = "0.12", default-features = false, features = ["client", "gateway", "model", "rustls_backend"] }
sysinfo = "0.30"
tokio = { version = "1", features = ["rt-multi-thread", "sync"] }
uuid = "1"
