[package]
name = "emojiopticon"
version = "0.1.0"
edition = "2021"
publish = false

[dependencies]
unicode-segmentation = "=1.13.3"
tokio = { version = "*", features = ["full"] }
clap = { version = "*", features = ["derive"] }
serde = { version = "*", features = ["derive"] }
serde_json = "*"
dotenv = "*"
hotreload = "*"
async-openai = { version = "=0.42.1", features = ["chat-completion"] }
jetstream-oxide = "*"
atrium-api = "*"
