[package]
name = "book_server"
version = "0.1.0"
edition = "2021"
publish = false

[dependencies]
serde_json = "=1.0.151"
serde = { version = "=1.0.229", features = ["derive"] }
tokio = { version = "=1.53.2", features = ["full"] }
async-openai = { version = "=0.42.1", features = ["chat-completion"] }
anyhow = "=1.0.104"
time = { version = "=0.3.55", features = ["formatting", "parsing"] }
futures = "=0.3.34"
