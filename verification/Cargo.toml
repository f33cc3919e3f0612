[package]
name = "dev_null"
version = "0.1.0"
edition = "2021"
publish = false

[dependencies]
regex = "1"
form_urlencoded = "1"
json = "0.12"
md5 = "0.7"
serde_json = "1"
url = "2"
uuid = { version = "1", features = ["v4"] }
rand = "0.8"
handlebars = "4"
serde = { version = "1", features = ["derive"] }
serde_yaml = "0.9"
clap = { version = "4", features = ["derive", "env"] }
tokio = { version = "1", features = ["full"] }
hyper = { version = "0.14", features = ["server", "http1", "tcp"] }
http = "0.2"
tower = { version = "0.4", features = ["make", "util"] }
tower-http = { version = "0.4", features = ["compression-full", "propagate-header", "sensitive-headers", "set-header", "trace"] }
glob = "0.3"
anyhow = "1"
bytes = "1"
