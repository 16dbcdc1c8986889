[package]
name = "janitor"
version = "0.1.0"
edition = "2021"
publish = false

[dependencies]
chrono = "*"
clap = { version = "*", features = ["derive"] }
eyre = "*"
futures = "*"
tokio = { version = "*", features = ["macros", "process", "rt-multi-thread", "io-util", "sync"] }
tracing = "*"
tracing-subscriber = "*"
uzers = "*"
