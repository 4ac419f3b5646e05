[package]
name = "opalite"
version = "0.1.0"
edition = "2021"
publish = false

[dependencies]
ron = "*"
serde = { version = "*", features = ["derive"] }
zip = { version = "*", default-features = false, features = ["deflate"] }
