[package]
name = "global_chat"
version = "0.1.0"
edition = "2021"
publish = false

[dependencies]
poise = "0.5"
sqlx = { version = "0.6", features = ["sqlite", "runtime-tokio-rustls"] }
tokio = { version = "1", features = ["macros", "rt-multi-thread"] }
dotenv = "0.15"
env_logger = "0.10"
