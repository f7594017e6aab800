[package]
name = "bundle_validator"
version = "0.1.0"
edition = "2021"
publish = false

[dependencies]
base64 = "=0.22.1"
bollard = "=0.19.4"
chrono = "=0.4.45"
headless_chrome = "=1.0.9"
lazy_static = "=1.5.1"
once_cell = "=1.21.4"
regex = "=1.13.1"
reqwest = { version = "=0.12.28", features = ["json", "multipart"] }
serde = { version = "=1.0.229", features = ["derive"] }
serde_json = "=1.0.154"
sha2 = "=0.10.9"
sha256 = "=1.6.0"
tokio = { version = "=1.54.1", features = ["macros", "rt-multi-thread", "fs", "time", "process"] }
url = "=2.5.8"
urlencoding = "=2.1.3"
uuid = { version = "=1.29.0", features = ["v4"] }
walkdir = "=2.5.0"
