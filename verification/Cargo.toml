[package]
name = "guildchat"
version = "0.1.0"
edition = "2021"
publish = false

[dependencies]
crossterm = "0.28"
ctrlc = "3"
reqwest = { version = "0.12", default-features = false, features = ["json", "rustls-tls"] }
serde = { version = "1", features = ["derive"] }
tokio = { version = "1", features = ["macros", "rt-multi-thread", "sync", "time"] }
