[package]
name = "nigerianbot"
version = "0.1.0"
edition = "2021"
publish = false

[dependencies]
anyhow = "=1.0.104"
bcrypt = "=0.15.1"
chrono = { version = "=0.4.45", features = ["serde"] }
jsonwebtoken = "=9.3.1"
serde = { version = "=1.0.229", features = ["derive"] }
serde_json = "=1.0.154"
tokio = { version = "=1.54.1", features = ["full"] }
tracing = "=0.1.44"
tracing-subscriber = { version = "=0.3.23", features = ["env-filter"] }
dotenvy = "=0.15.7"
reqwest = { version = "=0.12.28", default-features = false, features = ["json", "rustls-tls"] }
sqlx = { version = "=0.8.6", default-features = false, features = ["runtime-tokio", "tls-rustls", "postgres", "chrono", "migrate", "macros"] }
actix-web = { version = "=4.18.1", default-features = false, features = ["macros"] }
actix-files = "=0.6.10"
tracing-actix-web = "=0.7.25"
serenity = { version = "=0.12.5", default-features = false, features = ["builder", "cache", "client", "gateway", "model", "http", "utils", "rustls_backend"] }
teloxide = { version = "=0.13.0", default-features = false, features = ["macros", "rustls", "ctrlc_handler"] }
takecell = "<0.1.2"
tokio-cron-scheduler = "=0.13.0"
