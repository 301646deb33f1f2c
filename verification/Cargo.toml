[package]
name = "twilight_commander"
version = "0.1.0"
edition = "2021"
publish = false

[dependencies]
ncurses = "=5.88.0"
serde = { version = "=1.0.229", features = ["derive"] }
termion = "=1.5.6"
toml = "=0.5.11"
