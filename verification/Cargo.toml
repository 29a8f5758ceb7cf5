[package]
name = "platemaker"
version = "0.1.0"
edition = "2021"
publish = false

[dependencies]
pulldown-cmark = { version = "*", default-features = false, features = ["html"] }
syntect = { version = "*", default-features = false, features = ["default-fancy"] }
emojis = "*"
regex = "*"
toml = "*"
serde = { version = "*", features = ["derive"] }
clap = { version = "*", features = ["derive"] }
thiserror = "*"
anyhow = "*"
notify = "*"
notify-debouncer-full = "*"
crossbeam-channel = "*"
ctrlc = "*"
