[package]
name = "coclash"
version = "0.1.0"
edition = "2021"
publish = false

[dependencies]
indexmap = { version = "*", features = ["serde"] }
serde_yaml = "*"
serde = { version = "*", features = ["derive"] }
serde_json = "*"
flate2 = "*"
url = "*"
thiserror = "*"
tokio = { version = "*", features = ["rt-multi-thread", "macros", "time", "sync", "net"] }
reqwest = { version = "*", default-features = false, features = ["json"] }
ratatui = "*"
dirs = "*"
libc = "*"
