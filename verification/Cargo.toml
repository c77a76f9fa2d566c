[package]
name = "shroudforge"
version = "0.1.0"
edition = "2021"
publish = false

[dependencies]
semver = "=1.0.28"
sha2 = "=0.10.9"
serde = { version = "=1.0.229", features = ["derive"] }
serde_json = "=1.0.154"
tempfile = "=3.27.0"
fs2 = "=0.4.3"
walkdir = "=2.5.0"
zip = { version = "=2.6.1", default-features = false, features = ["deflate"] }
base64 = "=0.22.1"
jsonschema = { version = "*", default-features = false }
