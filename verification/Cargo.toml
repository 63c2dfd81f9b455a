[package]
name = "mgit"
version = "0.1.0"
edition = "2021"
publish = false

[dependencies]
regex = "1"
semver = "1"
globset = "0.4"
ansi_term = "0.12"
home = "0.5"
filetime = "0.2"
serde = { version = "1", features = ["derive"] }
toml = "0.8"
toml_edit = { version = "0.22", features = ["serde"] }
sha256 = { version = "1", default-features = false }
walkdir = "2"
