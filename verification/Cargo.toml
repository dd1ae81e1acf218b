[package]
name = "rss_qualifier"
version = "0.1.0"
edition = "2021"
publish = false

[dependencies]
flate2 = "1"
base64 = "0.22"
url = "2"
serde = "1"
thiserror = "1"
tokio = { version = "1", features = ["full"] }
hyper = { version = "1", features = ["http1", "server"] }
hyper-util = { version = "0.1", features = ["tokio"] }
http-body-util = "0.1"
clap = { version = "4", features = ["derive"] }
reqwest = "*"
rss = "*"
feed-rs = "*"
article_scraper = "*"
