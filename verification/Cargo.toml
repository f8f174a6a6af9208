[package]
name = "agents"
version = "0.1.0"
edition = "2021"
publish = false

[dependencies]
openai = "*"
dotenv = "*"
serde_json = "*"
tokio = { version = "*", features = ["rt"] }
