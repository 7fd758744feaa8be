[package]
name = "systemd_compat"
version = "0.1.0"
edition = "2021"
publish = false

[dependencies]
camino = "*"
tokio = { version = "*", features = ["net"] }
tracing = "*"
