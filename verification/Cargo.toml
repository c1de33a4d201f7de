[package]
name = "atui"
version = "0.1.0"
edition = "2021"
publish = false

[dependencies]
sublime_fuzzy = "*"
base64 = "*"
urlencoding = "*"
url = "*"
clap = { version = "*", features = ["derive"] }
crossterm = "*"
ratatui = "*"
dotenv = "*"
reqwest = { version = "*", default-features = false, features = ["blocking", "json", "rustls-tls"] }
serde = { version = "*", features = ["derive"] }
serde_json = "*"
thiserror = "*"
tokio = { version = "*", features = ["rt", "rt-multi-thread", "macros", "sync", "signal", "time"] }
