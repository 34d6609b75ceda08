[package]
name = "group"
version = "0.1.0"
edition = "2021"
publish = false

[dependencies]
ff = { version = "0.13", default-features = false }
subtle = { version = "2.5", default-features = false }
