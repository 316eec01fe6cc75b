[package]
name = "transfiles"
version = "0.1.0"
edition = "2021"
publish = false

[dependencies]
quick-xml = "=0.31.0"
fancy-regex = "=0.13.0"
zip = "*"
calamine = "=0.23.1"
serde = { version = "1", features = ["derive"] }
