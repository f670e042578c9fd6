[package]
name = "conformance_harness"
version = "0.1.0"
edition = "2021"
publish = false

[dependencies]
regex = "1"
anyhow = "1"
json5 = "0.4"
serde = { version = "1", features = ["derive"] }
reqwest = { version = "0.12", default-features = false, features = ["blocking", "rustls-tls"] }
tokio = { version = "1", features = ["rt", "time"] }
fslock = "0.2"
temp-dir = "0.1"
libtest-mimic = "0.7"
flate2 = "1"
tar = "0.4"
tempfile = "3"
