[package]
name = "docuram_sync"
version = "0.1.0"
edition = "2021"
publish = false

[dependencies]
anyhow = "*"
chrono = "*"
clap = { version = "*", features = ["derive"] }
colored = "*"
console = "*"
dialoguer = "*"
dirs = "*"
flate2 = "*"
indicatif = "*"
rand = "*"
reqwest = { version = "*", default-features = false, features = ["json"] }
serde = { version = "*", features = ["derive"] }
serde_json = "*"
serde_yaml = "*"
sha2 = "*"
tokio = { version = "*", features = ["rt-multi-thread", "macros"] }
toml = "*"
url = "*"
uuid = { version = "*", features = ["v4"] }
walkdir = "*"
webbrowser = "*"
zip = { version = "*", default-features = false, features = ["deflate"] }
