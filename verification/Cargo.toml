[package]
name = "room_hub"
version = "0.1.0"
edition = "2021"
publish = false

[dependencies]
actix = "=0.13.5"
actix-cors = "=0.7.2"
actix-web = { version = "=4.18.1", default-features = false, features = ["macros", "ws"] }
actix-web-actors = "=4.3.1"
base64 = "=0.21.7"
chrono = "=0.4.45"
dotenvy = "=0.15.7"
env_logger = "=0.11.11"
futures = "=0.3.34"
jsonwebtoken = "=9.3.1"
log = "=0.4.34"
serde = { version = "=1.0.229", features = ["derive"] }
serde_json = "=1.0.154"
sqlx = { version = "=0.8.6", default-features = false, features = ["runtime-tokio", "sqlite"] }
tokio = { version = "=1.54.1", features = ["fs", "io-util", "rt", "macros"] }
uuid = { version = "=1.29.0", features = ["v4"] }
yansi = "=1.0.1"
