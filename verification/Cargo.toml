[package]
name = "townfeed"
version = "0.1.0"
edition = "2021"
publish = false

[dependencies]
serde_json = "*"
chrono = "*"
serde = { version = "*", features = ["derive"] }
toml = "*"
reqwest = { version = "*", default-features = false }
tokio = { version = "*", features = ["rt-multi-thread", "macros", "time"] }
aws-config = { version = "*", default-features = false }
aws-sdk-dynamodb = { version = "*", default-features = false }
aws-types = { version = "*", default-features = false }
