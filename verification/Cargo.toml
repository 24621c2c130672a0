[package]
name = "ddb"
version = "0.1.0"
edition = "2021"
publish = false

[dependencies]
chrono = "0.4"
clap = { version = "4", features = ["derive", "env"] }
dirs = "5"
image = { version = "0.25", default-features = false, features = ["png"] }
libc = "0.2"
quick-xml = "0.36"
serde = { version = "1", features = ["derive"] }
serde_json = "1"
serde_yaml = "0.9"
toml = "0.8"
walkdir = "2"
