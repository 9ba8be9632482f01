[package]
name = "key_purge"
version = "0.1.0"
edition = "2021"
publish = false

[dependencies]
flate2 = "1"
itertools = "*"
eyre = "*"
governor = "*"
redis = "*"
tokio = { version = "1", features = ["macros", "rt-multi-thread"] }
