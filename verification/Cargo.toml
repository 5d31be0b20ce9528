[package]
name = "shadowpaste"
version = "0.1.0"
edition = "2021"
publish = false

[dependencies]
anyhow = "=1.0.104"
arboard = "=3.7.0"
base64 = "=0.22.1"
chrono = "=0.4.45"
clipboard-master = "=4.1.0"
dioxus = "0.7"
dirs = "=6.0.0"
image = { version = "=0.25.10", default-features = false, features = ["png"] }
rusqlite = { version = "=0.37.0", features = ["bundled"] }
tokio = { version = "=1.54.1", features = ["rt", "sync"] }
