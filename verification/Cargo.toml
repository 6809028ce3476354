[package]
name = "ornithology"
version = "0.1.0"
edition = "2021"
publish = false

[dependencies]
anyhow = "*"
oauth2 = { version = "*", default-features = false }
open = "*"
reqwest = { version = "*", default-features = false, features = ["rustls-tls"] }
serde = { version = "*", features = ["derive"] }
serde_json = "*"
tokio = { version = "*", features = ["full"] }
zip = { version = "*", default-features = false, features = ["deflate"] }
