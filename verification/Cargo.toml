[package]
name = "pluckrs"
version = "0.1.0"
edition = "2021"
publish = false

[dependencies]
regex = "*"
semver = "*"
dirs = "*"
serde = { version = "*", features = ["derive"] }
toml = "*"
