[package]
name = "refield"
version = "0.1.0"
edition = "2021"
publish = false

[dependencies]
urlencoding = "2"
clap = "4"
reqwest = { version = "0.12", default-features = false, features = ["json"] }
serde = { version = "1", features = ["derive"] }
serde_json = "1"
tokio = { version = "1", features = ["rt-multi-thread", "macros", "time"] }
