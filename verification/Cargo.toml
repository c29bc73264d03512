[package]
name = "hianime"
version = "0.1.0"
edition = "2021"
publish = false

[dependencies]
serde = { version = "1", features = ["derive"] }
serde_json = "1"
reqwest = { version = "*", default-features = false, features = ["blocking", "json", "rustls-tls"] }
visdom = "*"
regex = "1"
url = "2"
urlencoding = "2"
