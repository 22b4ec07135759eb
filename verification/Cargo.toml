[package]
name = "game_cluster"
version = "0.1.0"
edition = "2021"
publish = false

[dependencies]
pallas = "*"
serde = { version = "*", features = ["derive"] }
reqwest = { version = "*", default-features = false, features = ["json"] }
rocket = { version = "*", features = ["json"] }
