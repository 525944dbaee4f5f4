[package]
name = "anime_cli"
version = "0.1.0"
edition = "2021"
publish = false

[dependencies]
regex = "1"
rand = "0.8"
anyhow = "1"
pbr = "1"
terminal_size = "*"
getopts = "0.2"
reqwest = { version = "0.11", features = ["blocking", "json"] }
serde = { version = "1", features = ["derive"] }
opener = "*"
