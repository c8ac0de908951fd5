[package]
name = "six_degrees"
version = "0.1.0"
edition = "2021"
publish = false

[dependencies]
url-escape = "*"
rusqlite = { version = "*", features = ["bundled"] }
hhmmss = "*"
num-format = "*"
xml-rs = "*"
