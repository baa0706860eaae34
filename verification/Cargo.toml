[package]
name = "deck_toolbox"
version = "0.1.0"
edition = "2021"
publish = false

[dependencies]
serde = { version = "1", features = ["derive"] }
dirs = "7"
ssh2 = "0.9"
