[package]
name = "ghdepup"
version = "0.1.0"
edition = "2021"
publish = false

[dependencies]
semver = "1"
serde_json = "1"
toml = "0.8"
tokio = { version = "1", features = ["rt", "macros", "fs"] }
hyper = { version = "0.14", features = ["client", "http1", "tcp"] }
hyper-tls = "0.5"
futures = "0.3"
itertools = "*"
