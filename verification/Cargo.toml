[package]
name = "wmclient"
version = "0.1.0"
edition = "2021"
publish = false

[dependencies]
lru = "0.7"
md5 = "0.7"
reqwest = { version = "0.11", default-features = false, features = ["blocking", "json"] }
serde = { version = "1", features = ["derive"] }
serde_json = "1"
thiserror = "1"
