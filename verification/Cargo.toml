[package]
name = "rustv"
version = "0.1.0"
edition = "2021"
publish = false

[dependencies]
url = "2"
toml = "*"
serde = { version = "1", features = ["derive"] }
docopt = "1"
term = "*"
log = "0.4"
http = "1"
