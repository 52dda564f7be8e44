[package]
name = "portscan"
version = "0.1.0"
edition = "2021"
publish = false

[dependencies]
anyhow = "1"
clap = { version = "4", features = ["derive"] }
reqwest = "0.12"
ssh2 = "0.9"
tokio = { version = "1", features = ["macros", "rt-multi-thread", "net"] }
