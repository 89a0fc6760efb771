[package]
name = "searchcore"
version = "0.1.0"
edition = "2021"
publish = false

[dependencies]
tantivy = "*"
base64 = "*"
serde = { version = "*", features = ["derive"] }
serde_json = "*"
time = "*"

[dev-dependencies]
tempfile = "*"
