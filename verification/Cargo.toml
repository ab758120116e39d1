[package]
name = "pulson"
version = "0.1.0"
edition = "2021"
publish = false

[dependencies]
chrono = "0.4"
url = "2"
argon2 = "0.5"
bcrypt = "0.15"
uuid = { version = "1", features = ["v4"] }
serde = { version = "1", features = ["derive"] }
serde_json = "1"
clap = { version = "4", features = ["derive", "env"] }
tokio = { version = "1", features = ["full"] }
reqwest = { version = "0.12", default-features = false, features = ["json", "rustls-tls"] }
warp = "0.3"
rusqlite = { version = "0.31", features = ["bundled"] }
sled = "0.34"
colored = "2"
directories = "5"
shellexpand = "3"
daemonize = "0.5"
mime_guess = "2"
rust-embed = "8"
anyhow = "1"
image = { version = "0.24", default-features = false, features = ["png", "jpeg"] }
