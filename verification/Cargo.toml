[package]
name = "proxy_server"
version = "0.1.0"
edition = "2021"
publish = false

[dependencies]
anyhow = "1"
bytes = "1"
env_logger = "0.10"
futures = "0.3"
headers = "0.3"
http = "0.2"
hyper = { version = "0.14", features = ["full"] }
hyper-rustls = "0.24"
json-patch = "0.2"
log = "0.4"
log-panics = "2"
mime = "0.3"
mime_guess = "2"
once_cell = "1"
regex = "1"
regex-syntax = "0.8"
rustls = "0.21"
rustls-pemfile = "1"
serde = { version = "1", features = ["derive"] }
serde_json = "1"
serde_yaml = "0.9"
structopt = "0.3"
tokio = { version = "1", features = ["full"] }
tokio-rustls = "0.24"
urlencoding = "1"
