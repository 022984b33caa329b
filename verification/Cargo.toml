[package]
name = "order_by"
version = "0.1.0"
edition = "2021"
publish = false

[dev-dependencies]
proptest = { version = "1", default-features = false, features = ["std"] }
regex = "1"
