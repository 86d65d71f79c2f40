[package]
name = "patrol"
version = "0.1.0"
edition = "2021"
publish = false

[dependencies]
sha2 = "=0.10.9"
uuid = { version = "=1.29.0", features = ["v4"] }
url = "=2.5.8"
scraper = "=0.29.0"
chrono = { version = "=0.4.45", default-features = false, features = ["std", "clock"] }
serde = { version = "=1.0.229", features = ["derive"] }
serde_json = "=1.0.154"
toml = "=1.1.8"
tokio = { version = "=1.54.1", features = ["rt-multi-thread", "macros", "sync", "time", "fs", "io-util", "io-std", "net"] }
futures = "=0.3.34"
futures-util = "=0.3.34"
async-stream = "=0.3.6"
async-trait = "=0.1.92"
reqwest = { version = "=0.13.5", default-features = false, features = ["default-tls", "charset"] }
fantoccini = { version = "=0.22.1", default-features = false, features = ["rustls-tls"] }
axum = { version = "=0.8.9", default-features = false, features = ["ws", "tokio", "http1"] }
clap = { version = "=4.6.7", default-features = false, features = ["std", "derive", "help", "usage", "error-context"] }
env_logger = { version = "=0.11.11", default-features = false }
log = "=0.4.34"
prettytable-rs = { version = "=0.10.0", default-features = false }
ansi_term = "=0.12.1"
once_cell = "=1.21.4"
