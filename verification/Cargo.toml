[package]
name = "weave_launcher"
version = "0.1.0"
edition = "2021"
publish = false

[dependencies]
sysinfo = "*"
dirs = "*"
serde = { version = "*", features = ["derive"] }
tokio = { version = "*", features = ["rt-multi-thread", "macros", "fs", "io-util"] }
reqwest = { version = "*", default-features = false, features = ["rustls-tls", "json"] }
