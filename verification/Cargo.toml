[package]
name = "divi_sync"
version = "0.1.0"
edition = "2021"
publish = false

[dependencies]
csv = "*"
soup = "*"
url = "*"
serde = { version = "*", features = ["derive"] }
serde_json = "*"
chrono = { version = "*", features = ["serde"] }
reqwest = { version = "*", default-features = false }
tokio = { version = "*", features = ["rt", "macros"] }
structopt = "*"
dotenv = "*"
tracing = "*"
tracing-subscriber = "*"
