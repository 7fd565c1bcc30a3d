[package]
name = "proxy_registry"
version = "0.1.0"
edition = "2021"
publish = false

[dependencies]
actix = "*"
actix-web = "*"
actix-web-actors = "*"
actix-web-httpauth = "*"
bcrypt = "*"
chrono = "*"
dotenv = "*"
jsonwebtoken = "*"
serde = { version = "*", features = ["derive"] }
serde_json = "*"
tokio = { version = "*", features = ["sync", "macros"] }
uuid = { version = "*", features = ["v4", "serde"] }
