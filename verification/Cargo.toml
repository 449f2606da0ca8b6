[package]
name = "caching_storage"
version = "0.1.0"
edition = "2021"
publish = false

[dependencies]
quick_cache = "*"
