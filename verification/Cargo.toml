[package]
name = "ftx"
version = "0.1.0"
edition = "2021"
publish = false

[dependencies]
aes-gcm = "0.10"
base64 = "0.22"
rand = "0.8"
uuid = { version = "1", features = ["v4"] }
chrono = "0.4"
dirs = "5"
rusqlite = { version = "0.31", features = ["bundled"] }
suppaftp = "6"
russh = "0.50"
russh-sftp = "2"
tokio = { version = "1", features = ["full"] }
