[package]
name = "wishlist_core"
version = "0.1.0"
edition = "2021"
publish = false

[dependencies]
mongodb = "*"
tokio = { version = "*", features = ["macros", "rt-multi-thread"] }
