[package]
name = "crud_core"
version = "0.1.0"
edition = "2021"
publish = false

[dependencies]
actix-web = "=4.15.0"
mysql = { version = "=28.0.3", default-features = false }
serde = { version = "=1.0.229", features = ["derive"] }
tera = "=1.20.1"
