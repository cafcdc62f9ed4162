[package]
name = "quoteme"
version = "0.1.0"
edition = "2021"
publish = false

[dependencies]
anyhow = "1"
arboard = { version = "3", default-features = false }
chrono = { version = "0.4", features = ["serde"] }
clap = { version = "4", features = ["derive"] }
dirs = "5"
enigo = "0.1"
hound = "3.5"
image = { version = "0.24", default-features = false, features = ["png"] }
rdev = { version = "0.5", features = ["unstable_grab"] }
serde = { version = "1", features = ["derive"] }
serde_json = "1"
toml = "0.8"
tracing = "0.1"
tracing-subscriber = { version = "0.3", features = ["env-filter"] }
uuid = { version = "1", features = ["v4"] }
whisper-rs = "0.14"
