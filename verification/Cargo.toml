[package]
name = "super_v"
version = "0.1.0"
edition = "2021"
publish = false

[dependencies]
arboard = "=3.7.0"
emojis = "=0.9.1"
