[package]
name = "yarn"
version = "0.1.0"
edition = "2021"
publish = false

[dependencies]
send_wrapper = "*"
