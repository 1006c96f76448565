[package]
name = "login_core"
version = "0.1.0"
edition = "2021"
publish = false

[dependencies]
jsonwebtoken = "9"
rand = "0.8"
serde = { version = "1", features = ["derive"] }
serde_json = "1"
bcrypt = "*"
actix-web = "4"
actix-cors = "*"
sqlx = { version = "*", default-features = false, features = ["runtime-tokio", "sqlite"] }
dotenv = "0.15"
anyhow = "1"
futures-util = "0.3"
