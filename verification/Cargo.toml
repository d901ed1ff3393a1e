[package]
name = "repositories"
version = "0.1.0"
edition = "2021"
publish = false

[dependencies]
regex = "=1.13.1"
glob = "=0.3.4"
url = "=2.5.8"
data-url = "=0.3.2"
mime = "=0.3.17"
relative-path = "=2.0.3"
serde = { version = "=1.0.229", features = ["derive"] }
serde_json = "=1.0.154"
reqwest = { version = "=0.12.28", default-features = false, features = ["json", "stream", "rustls-tls"] }
tokio = { version = "=1.54.1", features = ["rt-multi-thread", "macros"] }
futures = "=0.3.34"
lol_html = "=3.0.3"
scraper = "=0.29.0"
once_cell = "=1.21.4"
log = "=0.4.35"
libc = "=0.2.191"
fuse_mt = "=0.6.4"
chrome_native_messaging = "=0.3.0"
image = { version = "=0.25.10", default-features = false, features = ["png", "jpeg"] }
icns = "=0.5.0"
headless_chrome = "=0.9.0"
