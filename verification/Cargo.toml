[package]
name = "mood_journal"
version = "0.1.0"
edition = "2021"
publish = false

[dependencies]
chrono = "*"
colored = "*"
cpal = "*"
dotenv = "*"
hound = "*"
reqwest = { version = "*", default-features = false, features = ["json", "multipart"] }
serde_json = "*"
tokio = { version = "*", features = ["macros", "rt-multi-thread", "fs"] }
