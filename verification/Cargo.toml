[package]
name = "gtfs_rs"
version = "0.1.0"
edition = "2021"
publish = false

[dependencies]
csv = "1"
serde_json = "1"
zip = { version = "2", default-features = false, features = ["deflate"] }
