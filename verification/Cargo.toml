[package]
name = "rustdb"
version = "0.1.0"
edition = "2021"
publish = false

[dependencies]
bytes = "1"
fs2 = "0.4"
serde = "1"
tokio = { version = "1", default-features = false, features = ["sync"] }

[dev-dependencies]
rand = "0.9"
