[package]
name = "embed_pool"
version = "0.1.0"
edition = "2021"
publish = false

[dependencies]
actix-web = "4"
rust-bert = "*"
serde = { version = "1", features = ["derive"] }
serde_json = "1"
tokio = { version = "1", features = ["sync"] }
