[package]
name = "proxy_pool"
version = "0.1.0"
edition = "2021"
publish = false

[dependencies]
anyhow = "1"
async-trait = "0.1"
chrono = { version = "0.4", default-features = false, features = ["clock", "std", "serde"] }
config = { version = "*", default-features = false, features = ["toml"] }
futures = "0.3"
once_cell = "1"
rand = "0.9"
regex = "1"
reqwest = { version = "0.12", default-features = false, features = ["json"] }
salvo = "*"
serde = { version = "1", features = ["derive"] }
serde_json = "1"
sqlx = { version = "0.8", default-features = false, features = ["runtime-tokio", "sqlite", "mysql", "postgres", "chrono", "derive"] }
thiserror = "*"
tokio = { version = "1", features = ["rt-multi-thread", "macros", "sync", "time"] }
tracing = { version = "0.1", features = ["log"] }
tracing-subscriber = "0.3"
