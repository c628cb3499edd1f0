[package]
name = "server_manager"
version = "0.1.0"
edition = "2021"
publish = false

[dependencies]
serde = { version = "1", features = ["derive"] }
toml = { version = "0.8", features = ["preserve_order"] }
