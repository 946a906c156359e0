[package]
name = "arceos_tools"
version = "0.1.0"
edition = "2021"
publish = false

[dependencies]
hex = "=0.4.3"
clap = { version = "=4.6.7", features = ["derive"] }
serde = { version = "=1.0.229", features = ["derive"] }
toml = "=0.8.23"
insta = "=1.49.0"
printf-compat = "=0.1.1"
arceos_api = "=0.3.0-preview.3"
