[package]
name = "guildkeeper"
version = "0.1.0"
edition = "2021"
publish = false

[dependencies]
chrono = "0.4"
dotenv = "0.15"
serde_json = "1"
serenity = { version = "0.12", default-features = false, features = ["chrono", "client", "gateway", "model", "rustls_backend"] }
tokio = { version = "1", features = ["macros", "rt-multi-thread"] }
