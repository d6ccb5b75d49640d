[package]
name = "sakanaa_web"
version = "0.1.0"
edition = "2021"
publish = false

[dependencies]
regex = "1"
anyhow = "1"
serde = { version = "1", features = ["derive"] }
serde_json = "1"
config = { version = "0.14", default-features = false, features = ["toml"] }
tokio = { version = "1", features = ["rt-multi-thread", "macros", "time", "fs", "sync"] }
reqwest = { version = "0.12", default-features = false, features = ["json", "rustls-tls"] }
futures = "0.3"
rayon = "1"
symphonia = { version = "0.5", features = ["mp3"] }
aubio-rs = "*"
mp3lame-encoder = "*"
tokio-rusqlite = "*"
dlhn = "*"
