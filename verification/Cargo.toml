[package]
name = "asciiarena"
version = "0.1.0"
edition = "2021"
publish = false

[dependencies]
clap = "*"
crossterm = "*"
ctrlc = "*"
lazy_static = "*"
log = "*"
message-io = "*"
serde = { version = "*", features = ["derive"] }
