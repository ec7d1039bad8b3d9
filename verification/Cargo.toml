[package]
name = "tymigrawr"
version = "0.1.0"
edition = "2021"
publish = false

[dependencies]
sqlite = "*"

[dev-dependencies]
tempfile = "*"
