[package]
name = "storage_analyzer"
version = "0.1.0"
edition = "2021"
publish = false

[dependencies]
chrono = "0.4"
rayon = "1"
walkdir = "2"
serde = { version = "1", features = ["derive"] }
colored = "2"
lazy_static = "1"
whoami = "1"
winapi = { version = "0.3", features = ["fileapi", "winbase", "winnt"] }
