[package]
name = "datadog_badges"
version = "0.1.0"
edition = "2021"
publish = false

[dependencies]
base64 = "=0.22.1"
cached = "=0.55.1"
chrono = "=0.4.45"
ctrlc = "=3.5.2"
env_logger = "=0.11.11"
getopts = "=0.2.24"
log = "=0.4.34"
regex = "=1.13.1"
reqwest = { version = "=0.12.28", default-features = false, features = ["json", "rustls-tls"] }
rusttype = "=0.9.3"
serde = { version = "=1.0.229", features = ["derive"] }
serde_json = "=1.0.154"
tokio = { version = "=1.54.1", features = ["macros", "rt-multi-thread"] }
warp = { version = "=0.3.7", default-features = false }
