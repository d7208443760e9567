[package]
name = "omniget"
version = "0.1.0"
edition = "2021"
publish = false

[dependencies]
aes = "0.8"
anyhow = "1"
async-trait = "0.1"
cbc = { version = "0.1", features = ["alloc", "block-padding"] }
dirs = "*"
futures = "0.3"
pbkdf2 = { version = "0.12", features = ["hmac"] }
reqwest = { version = "0.12", default-features = false, features = ["json", "stream", "rustls-tls"] }
sanitize-filename = "*"
serde = { version = "1", features = ["derive"] }
serde_json = "1"
sha1 = "0.10"
sha2 = "0.10"
tokio = { version = "1", features = ["full"] }
tokio-util = "0.7"
tracing = "0.1"
url = "2"
urlencoding = "2"
uuid = { version = "1", features = ["v4"] }
