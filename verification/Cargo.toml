[package]
name = "babelone"
version = "0.1.0"
edition = "2021"
publish = false

[dependencies]
rustpython-parser = "0.3"
serde = { version = "*", features = ["derive"] }
toml = "*"
