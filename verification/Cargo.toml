[package]
name = "turbo_vision"
version = "0.1.0"
edition = "2021"
publish = false

[dependencies]
base64 = "0.22"
crossterm = "0.28"
