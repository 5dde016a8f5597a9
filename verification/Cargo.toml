[package]
name = "zs"
version = "0.1.0"
edition = "2021"
publish = false

[dependencies]
lexopt = "0.3"
owo-colors = "4"
anyhow = "1"
tokio = { version = "1", features = ["rt", "fs", "process", "io-util", "io-std", "macros"] }
reqwest = { version = "0.12", default-features = false, features = ["rustls-tls"] }
zip = { version = "2", default-features = false, features = ["deflate"] }
tracing = "0.1"
tracing-subscriber = "0.3"
tracing-log = "0.2"
