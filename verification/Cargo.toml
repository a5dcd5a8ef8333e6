[package]
name = "tuber"
version = "0.1.0"
edition = "2021"
publish = false

[dependencies]
dotenv = "0.15"
flate2 = "1"
reqwest = { version = "0.12", features = ["blocking"] }
serde = { version = "1", features = ["derive"] }
serde_json = "1"
tar = "0.4"
