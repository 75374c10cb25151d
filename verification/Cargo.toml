[package]
name = "coingecko_requests"
version = "0.1.0"
edition = "2021"
publish = false

[dependencies]
directories = "4"
futures = "0.3"
reqwest = { version = "0.11", default-features = false, features = ["json", "rustls-tls"] }
serde = { version = "1", features = ["derive"] }
sqlx = { version = "0.6", default-features = false, features = ["runtime-tokio-rustls", "sqlite"] }
tokio = { version = "1", features = ["macros", "rt-multi-thread", "fs", "time"] }
