[package]
name = "votrans"
version = "0.1.0"
edition = "2021"
publish = false

[dependencies]
axum = { version = "=0.6.20", features = ["multipart"] }
bytes = "=1.12.1"
dotenvy = "=0.15.7"
dptree = "=0.3.0"
futures = "=0.3.34"
hound = "=3.5.1"
reqwest = { version = "=0.11.27", default-features = false, features = ["json", "multipart", "stream"] }
serde = { version = "=1.0.229", features = ["derive"] }
serde_json = "=1.0.154"
takecell = "=0.1.1"
teloxide = { version = "=0.12.2", default-features = false, features = ["macros"] }
tokio = { version = "=1.54.1", features = ["full"] }
vosk = "=0.2.0"
youtube_dl = { version = "=0.9.0", features = ["tokio"] }
