[package]
name = "torust"
version = "0.1.0"
edition = "2021"
publish = false

[dependencies]
urlencoding = "2"
reqwest = { version = "0.12", default-features = false }
tokio = { version = "1", features = ["macros", "rt-multi-thread"] }
async-trait = "0.1"
serde = { version = "1", features = ["derive"] }
