[package]
name = "library_bot"
version = "0.1.0"
edition = "2021"
publish = false

[dependencies]
uuid = { version = "=1.29.0", features = ["v4"] }
teloxide = { version = "=0.13.0", default-features = false, features = ["macros", "ctrlc_handler", "rustls", "webhooks-axum"] }
takecell = "=0.1.1"
dptree = "=0.3.0"
tokio = { version = "=1.54.1", features = ["macros", "rt-multi-thread", "sync"] }
rusqlite = { version = "=0.32.1", features = ["bundled"] }
reqwest = { version = "=0.12.28", default-features = false, features = ["rustls-tls"] }
dotenv = "=0.15.0"
tracing = "=0.1.44"
tracing-subscriber = { version = "=0.3.23", features = ["env-filter"] }
anyhow = "=1.0.104"
