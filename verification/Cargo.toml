[package]
name = "moj_archive"
version = "0.1.0"
edition = "2021"
publish = false

[dependencies]
chrono = { version = "0.4", features = ["serde"] }
error-stack = "0.5"
git2 = { version = "0.20", default-features = false }
indicatif = "0.17"
linked-hash-map = "0.5"
owo-colors = { version = "4", features = ["supports-colors"] }
serde = { version = "1", features = ["derive"] }
tempfile = "3"
thiserror = "2"
toml = "0.8"
ureq = { version = "3", features = ["json"] }
walkdir = "2"
zip = { version = "2", default-features = false, features = ["deflate"] }
