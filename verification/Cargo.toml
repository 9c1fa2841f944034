[package]
name = "pr_engine"
version = "0.1.0"
edition = "2021"
publish = false

[dependencies]
zip = { version = "*", default-features = false, features = ["deflate"] }
flate2 = "*"
tar = "*"
serde_json = "*"
git2 = { version = "*", default-features = false }
chrono = { version = "*", default-features = false }
probly-search = "*"
tempfile = "*"
