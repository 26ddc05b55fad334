[package]
name = "chat_server"
version = "0.1.0"
edition = "2021"
publish = false

[dependencies]
actix = "*"
actix-cors = "*"
actix-rt = "*"
actix-web = "*"
actix-ws = "*"
chrono = { version = "*", features = ["serde"] }
env_logger = "*"
futures-util = "*"
sea-orm = { version = "*", default-features = false, features = ["macros", "with-chrono"] }
serde = { version = "*", features = ["derive"] }
serde_json = "*"
