[package]
name = "cleanbot"
version = "0.1.0"
edition = "2021"
publish = false

[dependencies]
anyhow = "=1.0.104"
async-trait = "=0.1.92"
chrono = "=0.4.45"
dotenv = "=0.15.0"
poise = "=0.6.2"
sea-orm = { version = "=1.1.20", default-features = false, features = ["macros", "with-chrono", "with-uuid", "sqlx-postgres", "runtime-tokio-rustls"] }
sea-orm-migration = { version = "=1.1.20", default-features = false, features = ["sqlx-postgres", "runtime-tokio-rustls"] }
serenity = "=0.12.5"
tokio = { version = "=1.54.1", features = ["macros", "rt-multi-thread", "time", "sync"] }
tracing = "=0.1.44"
tracing-subscriber = { version = "=0.3.23", features = ["env-filter"] }
uuid = { version = "=1.29.1", features = ["v4"] }
