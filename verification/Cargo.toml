[package]
name = "splittarr"
version = "0.1.0"
edition = "2021"
publish = false

[dependencies]
chrono = "0.4"
config = { version = "*", default-features = false, features = ["toml"] }
exitfailure = "*"
itertools = "*"
rcue = "*"
regex = "1"
reqwest = "*"
rusqlite = "*"
serde = { version = "1", features = ["derive"] }
serde_json = "1"
tokio = { version = "1", features = ["macros", "rt-multi-thread"] }
uuid = { version = "1", features = ["v4"] }
walkdir = "2"
