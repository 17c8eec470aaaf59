[package]
name = "jormungandr_core"
version = "0.1.0"
edition = "2021"
publish = false

[dependencies]
lru = { version = "0.6", default-features = false }
