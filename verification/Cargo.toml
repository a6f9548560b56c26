[package]
name = "codewhale_tui"
version = "0.8.70"
edition = "2021"
publish = false

[dependencies]
anyhow = "1"
async-stream = "0.3"
async-trait = "0.1"
chrono = { version = "0.4", default-features = false, features = ["clock"] }
colored = "*"
dirs = "*"
futures-util = "0.3"
ignore = "0.4"
ratatui = { version = "*", default-features = false }
regex = "1"
serde = { version = "1", features = ["derive"] }
serde_json = "1"
shellexpand = "*"
shlex = "1"
tempfile = "3"
tokio = { version = "1", features = ["rt", "sync", "macros", "process", "io-util", "time"] }
tokio-util = "0.7"
toml = "*"
tracing = "0.1"
uuid = { version = "1", features = ["v4"] }
