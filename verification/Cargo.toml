[package]
name = "memoire"
version = "0.1.0"
edition = "2021"
publish = false

[dependencies]
arboard = "*"
clap = "2"
dirs = "*"
reqwest = { version = "*", default-features = false }
serde = { version = "1", features = ["derive"] }
serde_json = "1"
termion = "1"
tui = { version = "0.19", default-features = false, features = ["termion"] }
