[package]
name = "llama_chat"
version = "0.4.0"
edition = "2021"
publish = false

[dependencies]
anyhow = "=1.0.104"
dirs = "=7.0.0"
futures = { version = "=0.3.34", default-features = false, features = ["std"] }
glob = "=0.3.4"
libc = "=0.2.191"
ratatui = { version = "=0.30.2", default-features = false, features = ["crossterm"] }
reqwest = { version = "=0.13.5", default-features = false, features = ["json", "stream"] }
serde = { version = "=1.0.229", features = ["derive"] }
serde_json = "=1.0.154"
tokio = { version = "=1.54.1", features = ["rt-multi-thread", "macros", "sync", "process", "time", "io-util", "fs"] }
toml = { version = "=1.1.8", default-features = false, features = ["std", "serde", "parse"] }
unicode-width = "=0.2.3"
