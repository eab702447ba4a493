[package]
name = "streaming_median"
version = "0.1.0"
edition = "2021"
publish = false

[dependencies]
arraydeque = "*"

[dev-dependencies]
xorshift = "*"
