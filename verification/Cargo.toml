[package]
name = "tootsync"
version = "0.1.0"
edition = "2021"
publish = false

[dependencies]
rss = "=2.1.2"
chrono = "=0.4.45"
base64 = "=0.22.1"
serde_json = "=1.0.151"
reqwest = { version = "=0.12.28", default-features = false }
tokio = { version = "=1.53.2", features = ["macros", "rt-multi-thread"] }
clap = { version = "=4.6.7", features = ["derive", "env"] }
log = "=0.4.34"
env_logger = "=0.11.11"
tempfile = "=3.27.0"
