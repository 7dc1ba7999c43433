[package]
name = "rmus"
version = "0.1.0"
edition = "2021"
publish = false

[dependencies]
directories = "*"
lofty = "*"
ratatui = "*"
rodio = "*"
rusqlite = { version = "*", features = ["bundled"] }
