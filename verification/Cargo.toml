[package]
name = "dnsq"
version = "0.1.0"
edition = "2021"
publish = false

[dependencies]
hickory-client = "0.24"
termion = "*"
clap = { version = "4", features = ["derive"] }
tokio = { version = "1", features = ["macros", "rt-multi-thread", "net"] }
