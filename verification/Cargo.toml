[package]
name = "secel"
version = "0.1.0"
edition = "2021"
publish = false

[dependencies]
ascii_tree = "0.1"
rust_decimal = { version = "1", default-features = false, features = ["std"] }

[dev-dependencies]
difference = "2.0"
