[package]
name = "inheritx_backend"
version = "0.1.0"
edition = "2021"
publish = false

[dependencies]
actix-service = "2"
actix-web = { version = "4", default-features = false, features = ["macros"] }
bytes = "1"
chrono = { version = "0.4", default-features = false, features = ["clock", "std", "serde"] }
deadpool-postgres = "*"
futures = "0.3"
jsonwebtoken = "9"
serde = { version = "1", features = ["derive"] }
serde_json = "1"
sqlx = { version = "0.8", default-features = false, features = ["runtime-tokio", "postgres", "uuid", "chrono"] }
tokio-postgres = { version = "0.7", features = ["with-chrono-0_4"] }
uuid = { version = "1", features = ["v4", "serde"] }
