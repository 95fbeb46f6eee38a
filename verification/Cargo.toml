[package]
name = "simplesl"
version = "0.1.0"
edition = "2021"
publish = false

[dependencies]
unescaper = "0.1"
