[package]
name = "mpdris2"
version = "0.1.0"
edition = "2021"
publish = false

[dependencies]
dirs = "*"
tokio = { version = "*", features = ["rt", "net", "io-util", "sync", "time", "macros"] }
argh = "*"
log = "*"
anyhow = "*"
