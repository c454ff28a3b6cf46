[package]
name = "forum_core"
version = "0.1.0"
edition = "2021"
publish = false

[dependencies]
rust-argon2 = "1"
base64 = "0.13"
rand = "0.8"
