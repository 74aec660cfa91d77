[package]
name = "puzzle_tokenizer"
version = "0.1.0"
edition = "2021"
publish = false

[dependencies]
actix-cors = "*"
actix-rt = "*"
actix-web = "*"
diesel = { version = "*", features = ["postgres", "r2d2", "serde_json"] }
dotenv = "*"
env_logger = "*"
mecab = "*"
serde = { version = "1", features = ["derive"] }
serde_json = "1"

[dev-dependencies]
regex = "1"
