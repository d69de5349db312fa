[package]
name = "wadpunk"
version = "0.1.0"
edition = "2021"
publish = false

[dependencies]
plist = "1"
chrono = "0.4"
fs_extra = "1"
serde = { version = "1", features = ["derive"] }
serde_json = "1"
