[package]
name = "plantita_ayudante"
version = "0.1.0"
edition = "2021"
publish = false

[dependencies]
regex = "1"
poise = "0.6"
serenity = "0.12"
tokio = { version = "1", features = ["full"] }
serde = { version = "1", features = ["derive"] }
chrono = "0.4"
dotenvy = "0.15"
