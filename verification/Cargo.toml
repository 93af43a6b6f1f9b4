[package]
name = "makereadme"
version = "0.1.0"
edition = "2021"
publish = false

[dependencies]
chrono = "0.4"
colored = "2"
dotenv = "0.15"
groq-api-rs = "*"
inquire = "0.7"
llama-cpp-2 = "*"
reqwest = { version = "0.12", features = ["json"] }
serde = { version = "1", features = ["derive"] }
serde_json = "1"
thiserror = "2"
tokio = { version = "1", features = ["full"] }
