[package]
name = "atomo_vfs"
version = "0.1.0"
edition = "2021"
publish = false

[dependencies]
async-trait = "0.1"
bytes = "1"
dirs = "6"
futures = "0.3"
mime_guess = "2"
notify = "8"
percent-encoding = "2"
serde = { version = "1", features = ["derive"] }
tauri = { version = "2", default-features = false }
thiserror = "2"
tokio = { version = "1", features = ["fs", "io-util", "macros", "rt", "sync", "time"] }
tokio-util = { version = "0.7", features = ["io"] }
trash = "5"
uuid = { version = "1", features = ["serde", "v4"] }
