[package]
name = "bore_relay"
version = "0.1.0"
edition = "2021"
publish = false

[dependencies]
anyhow = "=1.0.104"
clap = { version = "=4.6.7", features = ["derive", "env"] }
hmac = "=0.12.1"
rand = "=0.8.8"
sha2 = "=0.10.9"
tokio = { version = "=1.53.2", features = ["rt-multi-thread", "net", "io-util", "time", "macros", "sync"] }
tracing = "=0.1.44"
tracing-subscriber = "=0.3.23"
