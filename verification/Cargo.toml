[package]
name = "backend"
version = "0.1.0"
edition = "2021"
publish = false

[dependencies]
tantivy = "*"
anyhow = "*"
chrono = { version = "*", features = ["serde"] }
serde = { version = "*", features = ["derive"] }
serde_json = "*"
serde_yaml = "*"
uuid = { version = "*", features = ["v4", "serde"] }
rust_decimal = "*"
regex = "*"
clap = { version = "*", features = ["derive"] }
dotenvy = "*"
tracing = "*"
tracing-subscriber = "*"
axum = "*"
tower-http = { version = "*", features = ["cors"] }
tokio = { version = "*", features = ["macros", "rt-multi-thread", "time"] }
sqlx = { version = "*", default-features = false, features = ["runtime-tokio", "postgres", "chrono", "uuid", "rust_decimal", "json", "macros"] }
reqwest = { version = "*", default-features = false, features = ["json"] }
scraper = "*"
arrow = "*"
parquet = "*"
