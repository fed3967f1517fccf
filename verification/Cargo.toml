[package]
name = "model"
version = "0.1.0"
edition = "2021"
publish = false

[dependencies]
unicase = "*"
sqlx = { version = "*", default-features = false, features = ["runtime-tokio", "postgres", "chrono"] }
tokio = { version = "*", default-features = false, features = ["macros", "rt-multi-thread"] }
chrono = { version = "*", default-features = false, features = ["clock"] }
jsonwebtoken = "*"
serde = { version = "*", features = ["derive"] }
