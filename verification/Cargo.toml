[package]
name = "tugbot"
version = "0.1.0"
edition = "2021"
publish = false

[dependencies]
regex = "1"
unidecode = "0.3"
snailquote = "0.3"
rapidfuzz = "0.5"
base64 = "0.22"
serenity = "0.12"
poise = "0.6"
tokio = { version = "1", features = ["full"] }
diesel = { version = "2", features = ["postgres", "r2d2"] }
dotenv = "0.15"
reqwest = { version = "0.11", features = ["json"] }
anyhow = "1"
thiserror = "1"
serde = { version = "1", features = ["derive"] }
