[package]
name = "actix_easy_multipart"
version = "0.1.0"
edition = "2021"
publish = false

[dependencies]
mime = "0.3"
multimap = "0.8"
parse-size = "1"
serde = "1"
serde_json = "1"
serde_plain = "1"
actix-http = { version = "3", default-features = false }
actix-multipart = "0.4"
actix-web = { version = "4", default-features = false }
bytes = "1"
futures-core = "0.3"
futures-util = "0.3"
tempfile = "3"
thiserror = "1"
tokio = { version = "1", features = ["fs", "io-util"] }
validator = "*"
