[package]
name = "platzhalter"
version = "0.1.0"
edition = "2021"
publish = false

[dependencies]
sled = "0.34"
actix-web = "4"
actix-cors = "*"
cairo-rs = "*"
serde = { version = "1", features = ["derive"] }
