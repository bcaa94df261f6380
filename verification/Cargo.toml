[package]
name = "media_tags"
version = "0.1.0"
edition = "2021"
publish = false

[dependencies]
chrono = "0.4"
regex = "1"
xmp_toolkit = { version = "1", features = ["chrono"] }
