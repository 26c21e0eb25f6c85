[package]
name = "docsite_to_md"
version = "0.1.0"
edition = "2021"
publish = false

[dependencies]
regex = "=1.13.1"
scraper = "=0.29.0"
html2md = "=0.2.17"
html5ever = "=0.39.0"
url = "=2.5.8"
sha2 = "=0.10.9"
serde = { version = "=1.0.229", features = ["derive"] }
serde_json = "=1.0.154"
reqwest = { version = "=0.12.28", default-features = false, features = ["rustls-tls"] }
tokio = { version = "=1.54.1", features = ["full"] }
futures = "=0.3.34"
clap = { version = "=4.6.7", features = ["derive"] }
thiserror = "=2.0.21"
tempfile = "=3.27.0"
