[package]
name = "clove1db"
version = "0.0.105"
edition = "2021"
publish = false

[dependencies]
chrono = "*"
itertools = "*"
moka = { version = "*", features = ["sync"] }
redb = "*"
serde = { version = "*", features = ["derive"] }
serde_json = "*"
thiserror = "*"
uuid = { version = "*", features = ["v4"] }
