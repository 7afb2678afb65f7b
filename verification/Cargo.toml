[package]
name = "vulntrix"
version = "0.1.0"
edition = "2021"
publish = false

[dependencies]
anyhow = "*"
clap = { version = "*", features = ["derive"] }
colored = "*"
reqwest = "*"
tokio = { version = "*", features = ["macros", "rt-multi-thread"] }

[dev-dependencies]
serde_json = "*"
