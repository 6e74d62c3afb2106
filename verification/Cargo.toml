[package]
name = "tandem"
version = "0.1.0"
edition = "2021"
publish = false

[dependencies]
anyhow = "1"
serde = { version = "1", features = ["derive"] }
serde_json = "1"
tokio = { version = "1", features = ["macros", "rt-multi-thread", "io-util", "io-std", "net", "process", "sync", "signal", "time", "fs"] }
clap = { version = "4", features = ["derive", "env"] }
tempfile = "3"
toml = "0.8"
