[package]
name = "velocity"
version = "0.1.0"
edition = "2021"
publish = false

[dependencies]
urlencoding = "2"
serde = { version = "1", features = ["derive"] }
serde_json = "1"
sqlx = { version = "0.8", default-features = false, features = ["runtime-tokio", "postgres", "mysql", "sqlite"] }
tokio = { version = "1", features = ["full"] }
tokio-util = { version = "0.7", features = ["compat"] }
futures = "0.3"
redis = { version = "0.27", features = ["tokio-comp"] }
mongodb = "3"
tiberius = "0.12"
csv = "1"
rust_xlsxwriter = "0.79"
chrono = { version = "0.4", features = ["serde"] }
