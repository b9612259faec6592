[package]
name = "isloongupdated"
version = "0.1.0"
edition = "2021"
publish = false

[dependencies]
actix-web = { version = "4", default-features = false, features = ["macros"] }
chrono = "0.4"
dotenv = "0.15"
reqwest = "0.12"
serde = { version = "1", features = ["derive"] }
sqlx = { version = "0.8", default-features = false, features = ["chrono", "derive", "postgres", "runtime-tokio"] }
tempfile = "3"
tokio = { version = "1", features = ["macros", "rt-multi-thread"] }
