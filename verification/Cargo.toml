[package]
name = "lasada"
version = "0.1.0"
edition = "2021"
publish = false

[dependencies]
tiktoken-rs = "=0.12.1"
serde_json = "=1.0.154"
urlencoding = "=2.1.3"
scraper = "=0.29.0"
serde = { version = "=1.0.229", features = ["derive"] }
tokio = { version = "=1.54.1", features = ["full"] }
reqwest = { version = "=0.12.28", default-features = false, features = ["json", "stream", "rustls-tls", "http2"] }
async-trait = "=0.1.92"
futures-util = "=0.3.34"
thiserror = "=2.0.21"
clap = { version = "=4.6.7", features = ["derive"] }
colored = "=3.1.1"
config = "=0.15.27"
dialoguer = "=0.12.0"
dotenv = "=0.15.0"
fastembed = { version = "=7.5.0", default-features = false, features = ["ort-load-dynamic", "hf-hub-rustls-tls"] }
fern = "=0.7.1"
chrono = "=0.4.45"
indicatif = "=0.18.6"
log = "=0.4.35"
sysinfo = "=0.40.1"
