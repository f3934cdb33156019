[package]
name = "notion_ical"
version = "0.1.0"
edition = "2021"
publish = false

[dependencies]
chrono = "0.4"
chrono-tz = "0.10"
uuid = { version = "1", features = ["v4"] }
serde_json = "1"
reqwest = { version = "0.12", default-features = false, features = ["json"] }
tide = "0.16"
async-std = { version = "1", features = ["attributes"] }
tokio = { version = "1", features = ["rt", "time"] }
clokwerk = "0.4"
dotenv = "0.15"
futures = "0.3"
lazy_static = "1"
