[package]
name = "nerum_core"
version = "0.1.0"
edition = "2021"
publish = false

[dependencies]
uuid = { version = "*", features = ["v4"] }
rusqlite = { version = "*", features = ["bundled"] }
clap = "*"
serde = { version = "*", features = ["derive"] }
serde_json = "*"
netprobe = "*"
xenet = "*"
