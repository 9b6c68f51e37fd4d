[package]
name = "compcache"
version = "0.1.0"
edition = "2021"
publish = false

[dependencies]
cached = { version = "*", default-features = false, features = ["disk_store"] }
toml = "*"

[dev-dependencies]
tempfile = "*"
