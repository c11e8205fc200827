[package]
name = "baidu_direct_link"
version = "0.1.0"
edition = "2021"
publish = false

[dependencies]
anyhow = "1"
reqwest = { version = "*", default-features = false, features = ["rustls-tls", "cookies", "json"] }
serde = { version = "1", features = ["derive"] }
serde_json = "1"
tokio = { version = "1", features = ["rt-multi-thread", "macros", "time", "fs", "io-util"] }
toml = "*"
url = "2"
urlencoding = "2"
zip = { version = "*", default-features = false, features = ["deflate"] }
