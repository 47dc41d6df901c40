[package]
name = "event_core"
version = "0.1.0"
edition = "2021"
publish = false

[dependencies]
once_cell = "1"
rand = "0.8"
url = "2"
xorshift = "0.1"
