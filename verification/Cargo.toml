[package]
name = "pvoutput_sync"
version = "0.1.0"
edition = "2021"
publish = false

[dependencies]
chrono = { version = "0.4", default-features = false, features = ["std"] }
chrono-tz = "*"
clap = { version = "*", features = ["derive"] }
curl = "0.4"
rusqlite = { version = "*", features = ["array", "bundled"] }
