[package]
name = "lowfi"
version = "0.1.0"
edition = "2021"
publish = false

[dependencies]
url = "2"
unicode-segmentation = "1"
fastrand = "2"
bytes = "1"
crossterm = "*"
regex = "1"
html-escape = "0.2"
serde = { version = "1", features = ["derive"] }
serde_json = "1"
tokio = { version = "1", features = ["full"] }
reqwest = { version = "0.12", default-features = false, features = ["rustls-tls", "stream"] }
rodio = "*"
clap = { version = "4", features = ["derive"] }
dirs = "*"
eyre = "0.6"
thiserror = "*"
futures = "0.3"
futures-util = "0.3"
scraper = "*"
flate2 = "1"
lazy_static = "1"
chrono = "0.4"
indicatif = "*"
libc = "0.2"
