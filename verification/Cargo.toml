[package]
name = "nginx_pool"
version = "0.1.0"
edition = "2021"
publish = false

[dependencies]
actix-web = { version = "4", default-features = false, features = ["macros"] }
anyhow = "1"
configparser = "3"
file-lock = "2"
serde = { version = "1", features = ["derive"] }
