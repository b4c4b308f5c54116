[package]
name = "channel_migrator"
version = "0.1.0"
edition = "2021"
publish = false

[dependencies]
anyhow = "1"
clap = { version = "4", features = ["derive"] }
regex = "1"
serenity = { version = "0.12", default-features = false, features = ["builder", "http", "model", "rustls_backend"] }
tokio = { version = "1", features = ["macros", "rt-multi-thread"] }
