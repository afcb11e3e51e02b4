[package]
name = "quiz"
version = "0.1.0"
edition = "2021"
publish = false

[dependencies]
async-std = { version = "1", features = ["attributes"] }
dotenv = "0.15"
serde = { version = "1", features = ["derive"] }
serde_json = "1"
sqlx = { version = "0.5", default-features = false, features = ["runtime-async-std-rustls", "postgres", "macros"] }
tide = "0.16"
tide-websockets = "0.4"
